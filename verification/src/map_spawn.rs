//! Spawning a map: which data files and sprite files the tile and object
//! layers need, whether everything they draw is cached, and the draw list of
//! both layers, with animation frames and the draw order of objects.
use vstd::prelude::*;
use vstd::multiset::Multiset;
use crate::asset_loader::SpriteKind;
use crate::entity::{Entry, GameMap, ListAsset, MapTile, Rmd};
use crate::paths::MapLayer;
use crate::resources::SpriteCache;
use crate::collision::CollisionGrid;
use crate::constants::{MAX_MAP, SPRITE_LOAD_TIMEOUT_FRAMES};
use crate::resources::MapIndex;
use crate::text::zero_padded;
use std::collections::HashSet;

verus! {

broadcast use vstd::std_specs::hash::group_hash_axioms;

// ── Animation frames ────────────────────────────────────────────────────────

/// The data-file entry index of animation frame value `f` from `base`.
pub open spec fn frame_entry_index(rmd: &Rmd, base: int, f: i32) -> int {
    base + rmd.animation_entry_count * (if f > 0 {
        f as int
    } else {
        0
    })
}

/// Whether the entry of `base` is animated by the file's first animation.
pub open spec fn has_frames(rmd: &Rmd) -> bool {
    rmd.animation_count != 0 && rmd.animations@.len() > 0 && rmd.animations@[0].frames@.len() > 1
}

/// The entry indices of every animation frame of the entry `base`: for a
/// file without animations, or whose first animation has at most one frame,
/// just `base`; otherwise `base + animation_entry_count * max(f, 0)` for
/// each frame value `f` of the first animation.
pub open spec fn anim_entry_indices_spec(rmd: &Rmd, base: int) -> Seq<int> {
    if !has_frames(rmd) {
        seq![base]
    } else {
        rmd.animations@[0].frames@.map_values(|f: i32| frame_entry_index(rmd, base, f))
    }
}

/// Whether every frame entry index of `base` fits in a `usize`.
pub open spec fn anim_indices_fit(rmd: &Rmd, base: int) -> bool {
    has_frames(rmd) ==> forall|i: int|
        0 <= i < rmd.animations@[0].frames@.len() ==> frame_entry_index(
            rmd,
            base,
            #[trigger] rmd.animations@[0].frames@[i],
        ) <= usize::MAX
}

/// The entry indices of every animation frame of entry `base`.
pub fn anim_entry_indices(rmd: &Rmd, base: usize) -> (v: Vec<usize>)
    requires
        anim_indices_fit(rmd, base as int),
    ensures
        v@.len() >= 1,
        v@.map_values(|x: usize| x as int) == anim_entry_indices_spec(rmd, base as int),
{
    if rmd.animation_count == 0 || rmd.animations.len() == 0 {
        let v = vec![base];
        assert(v@.map_values(|x: usize| x as int) =~= seq![base as int]);
        return v;
    }
    let stride = rmd.animation_entry_count as usize;
    let frames = rmd.animations[0].frames();
    if frames.len() <= 1 {
        let v = vec![base];
        assert(v@.map_values(|x: usize| x as int) =~= seq![base as int]);
        return v;
    }
    let mut v: Vec<usize> = Vec::new();
    let mut i: usize = 0;
    while i < frames.len()
        invariant
            has_frames(rmd),
            frames@ == rmd.animations@[0].frames@,
            stride == rmd.animation_entry_count,
            anim_indices_fit(rmd, base as int),
            i <= frames@.len(),
            v@.len() == i,
            forall|j: int|
                0 <= j < i ==> #[trigger] v@[j] == frame_entry_index(rmd, base as int, frames@[j]),
        decreases frames@.len() - i,
    {
        let f = frames[i];
        let fu: usize = if f > 0 {
            f as usize
        } else {
            0
        };
        assert(frame_entry_index(rmd, base as int, frames@[i as int]) <= usize::MAX);
        assert(stride * fu <= usize::MAX) by (nonlinear_arith)
            requires
                base + stride * fu <= usize::MAX,
                base >= 0,
        ;
        v.push(base + stride * fu);
        i = i + 1;
    }
    assert(v@.map_values(|x: usize| x as int) =~= anim_entry_indices_spec(rmd, base as int));
    v
}

// ── Loaded data files ───────────────────────────────────────────────────────

/// The data files of one layer that are loaded, by file number.
pub struct LoadedRmds<'a> {
    pub files: Vec<u32>,
    pub rmds: Vec<&'a Rmd>,
}

impl<'a> LoadedRmds<'a> {
    /// One data file per number, file numbers paired with data files.
    pub open spec fn wf(&self) -> bool {
        &&& self.files@.len() == self.rmds@.len()
        &&& self.files@.no_duplicates()
    }

    /// The loaded data file with number `file`, if any.
    pub open spec fn lookup(&self, file: u32) -> Option<&'a Rmd> {
        if exists|i: int| 0 <= i < self.files@.len() && self.files@[i] == file {
            let i = choose|i: int| 0 <= i < self.files@.len() && self.files@[i] == file;
            Some(self.rmds@[i])
        } else {
            None
        }
    }

    /// Whether file numbers and data files pair up, each number once.
    pub fn is_wf(&self) -> (b: bool)
        ensures
            b == self.wf(),
    {
        if self.files.len() != self.rmds.len() {
            return false;
        }
        let mut i: usize = 0;
        while i < self.files.len()
            invariant
                i <= self.files@.len(),
                forall|a: int, c: int| 0 <= a < c < i ==> self.files@[a] != self.files@[c],
            decreases self.files@.len() - i,
        {
            let mut j: usize = 0;
            while j < i
                invariant
                    i < self.files@.len(),
                    j <= i,
                    forall|a: int, c: int| 0 <= a < c < i ==> self.files@[a] != self.files@[c],
                    forall|a: int| 0 <= a < j ==> self.files@[a] != self.files@[i as int],
                decreases i - j,
            {
                if self.files[j] == self.files[i] {
                    return false;
                }
                j = j + 1;
            }
            i = i + 1;
        }
        true
    }

    /// No data file is loaded.
    pub fn new() -> (l: LoadedRmds<'a>)
        ensures
            l.wf(),
            forall|f: u32| l.lookup(f) is None,
    {
        LoadedRmds { files: Vec::new(), rmds: Vec::new() }
    }

    /// Records the data file of number `file`, unless one is recorded for it.
    pub fn add(&mut self, file: u32, rmd: &'a Rmd)
        requires
            old(self).wf(),
        ensures
            final(self).wf(),
            old(self).lookup(file) is None ==> final(self).lookup(file) == Some(rmd),
            old(self).lookup(file) is Some ==> final(self).lookup(file) == old(self).lookup(file),
            forall|f: u32| f != file ==> final(self).lookup(f) == old(self).lookup(f),
    {
        if self.get(file).is_some() {
            return;
        }
        let ghost old_files = self.files@;
        self.files.push(file);
        self.rmds.push(rmd);
        proof {
            let n = old_files.len() as int;
            assert forall|f: u32| f != file implies self.lookup(f) == old(self).lookup(f) by {
                if exists|i: int| 0 <= i < old_files.len() && old_files[i] == f {
                    let i = choose|i: int| 0 <= i < old_files.len() && old_files[i] == f;
                    assert(self.files@[i] == f);
                    let j = choose|j: int| 0 <= j < self.files@.len() && self.files@[j] == f;
                    assert(j == i) by {
                        if j != i {
                            assert(j < n);
                        }
                    }
                } else {
                    assert forall|j: int| 0 <= j < self.files@.len() implies self.files@[j] != f by {
                        if j < n {
                            assert(self.files@[j] == old_files[j]);
                        }
                    }
                }
            }
            assert(self.files@[n] == file);
            let j = choose|j: int| 0 <= j < self.files@.len() && self.files@[j] == file;
            assert(j == n) by {
                if j < n {
                    assert(old_files[j] == file);
                }
            }
        }
    }

    /// The loaded data file with number `file`, if any.
    pub fn get(&self, file: u32) -> (r: Option<&'a Rmd>)
        requires
            self.wf(),
        ensures
            r == self.lookup(file),
    {
        let mut i: usize = 0;
        while i < self.files.len()
            invariant
                self.wf(),
                i <= self.files@.len(),
                forall|j: int| 0 <= j < i ==> self.files@[j] != file,
            decreases self.files@.len() - i,
        {
            if self.files[i] == file {
                let r = self.rmds[i];
                proof {
                    let j = choose|j: int| 0 <= j < self.files@.len() && self.files@[j] == file;
                    assert(j == i);
                }
                return Some(r);
            }
            i = i + 1;
        }
        None
    }
}

// ── Sprite references ───────────────────────────────────────────────────────

/// The data reference of a map tile in one layer.
pub open spec fn layer_entry(tile: MapTile, layer: MapLayer) -> Entry {
    match layer {
        MapLayer::Tile => tile.tle_rmd_entry,
        MapLayer::Object => tile.obj_rmd_entry,
    }
}

/// The sprite that id `d` of image `g` of entry `entry_idx` refers to, when
/// all of these exist and the list has the item.
pub open spec fn entry_sprite(rmd: &Rmd, list: &ListAsset, entry_idx: int, g: int, d: int) -> Option<
    Entry,
> {
    if 0 <= entry_idx < rmd.entries@.len() && 0 <= g < rmd.entries@[entry_idx].images@.len() && 0
        <= d < rmd.entries@[entry_idx].images@[g].image_id@.len()
        && rmd.entries@[entry_idx].images@[g].image_id@[d] < list.items@.len() {
        Some(list.items@[rmd.entries@[entry_idx].images@[g].image_id@[d] as int].entry)
    } else {
        None
    }
}

/// Whether a sprite reference is to sprite file `n`.
pub open spec fn is_file(e: Option<Entry>, n: u32) -> bool {
    match e {
        Some(x) => x.file == n,
        None => false,
    }
}

/// Whether a sprite reference, if there is one, is cached under `kind`.
pub open spec fn cached_in<H>(
    e: Option<Entry>,
    kind: SpriteKind,
    cache: Map<(SpriteKind, Entry), crate::resources::CachedSprite<H>>,
) -> bool {
    match e {
        Some(x) => cache.contains_key((kind, x)),
        None => true,
    }
}

/// Whether entry `entry_idx` draws a sprite of sprite file `n`.
pub open spec fn entry_uses_file(rmd: &Rmd, list: &ListAsset, entry_idx: int, n: u32) -> bool {
    exists|g: int, d: int| is_file(#[trigger]
        entry_sprite(rmd, list, entry_idx, g, d), n)
}

/// Whether some animation frame of a data reference draws a sprite of
/// sprite file `n` (a reference to file 0 or to a file that is not loaded
/// draws nothing).
pub open spec fn reference_uses_file(
    file: u32,
    index: int,
    rmd: Option<&Rmd>,
    list: &ListAsset,
    n: u32,
) -> bool {
    file != 0 && rmd is Some && exists|k: int|
        0 <= k < anim_entry_indices_spec(rmd->0, index).len() && entry_uses_file(
            rmd->0,
            list,
            #[trigger] anim_entry_indices_spec(rmd->0, index)[k],
            n,
        )
}

/// Whether every sprite that entry `entry_idx` draws is cached.
pub open spec fn entry_sprites_cached<H>(
    rmd: &Rmd,
    list: &ListAsset,
    entry_idx: int,
    kind: SpriteKind,
    cache: Map<(SpriteKind, Entry), crate::resources::CachedSprite<H>>,
) -> bool {
    forall|g: int, d: int| cached_in(#[trigger]
        entry_sprite(rmd, list, entry_idx, g, d), kind, cache)
}

/// Whether everything a data reference draws, in every animation frame, is
/// cached: a reference to file 0 draws nothing; a reference to a file that
/// is not loaded is not ready.
pub open spec fn reference_ready<H>(
    kind: SpriteKind,
    file: u32,
    index: int,
    rmd: Option<&Rmd>,
    list: &ListAsset,
    cache: Map<(SpriteKind, Entry), crate::resources::CachedSprite<H>>,
) -> bool {
    file == 0 || (rmd is Some && forall|k: int|
        0 <= k < anim_entry_indices_spec(rmd->0, index).len() ==> entry_sprites_cached(
            rmd->0,
            list,
            #[trigger] anim_entry_indices_spec(rmd->0, index)[k],
            kind,
            cache,
        ))
}

/// Adds `x` to a list of distinct numbers, unless it is there.
pub(crate) fn push_unique(v: &mut Vec<u32>, x: u32)
    requires
        old(v)@.no_duplicates(),
    ensures
        final(v)@.no_duplicates(),
        forall|y: u32| #[trigger] final(v)@.contains(y) <==> old(v)@.contains(y) || y == x,
{
    let mut i: usize = 0;
    while i < v.len()
        invariant
            v@ == old(v)@,
            old(v)@.no_duplicates(),
            i <= v@.len(),
            forall|j: int| 0 <= j < i ==> v@[j] != x,
        decreases v@.len() - i,
    {
        if v[i] == x {
            return;
        }
        i = i + 1;
    }
    let ghost before = v@;
    v.push(x);
    proof {
        assert forall|y: u32| #[trigger] v@.contains(y) <==> before.contains(y) || y == x by {
            if v@.contains(y) {
                let j = choose|j: int| 0 <= j < v@.len() && v@[j] == y;
                if j < before.len() {
                    assert(before[j] == y);
                }
            }
            if before.contains(y) {
                let j = choose|j: int| 0 <= j < before.len() && before[j] == y;
                assert(v@[j] == y);
            }
            if y == x {
                assert(v@[before.len() as int] == x);
            }
        }
    }
}

/// Adds the file numbers of the sprites entry `entry_idx` draws to `out`.
pub(crate) fn add_entry_rle_files(rmd: &Rmd, entry_idx: usize, list: &ListAsset, out: &mut Vec<u32>)
    requires
        old(out)@.no_duplicates(),
    ensures
        final(out)@.no_duplicates(),
        forall|y: u32| #[trigger]
            final(out)@.contains(y) <==> old(out)@.contains(y) || entry_uses_file(
                rmd,
                list,
                entry_idx as int,
                y,
            ),
{
    let ghost start = out@;
    match rmd.get_entry(entry_idx) {
        None => {
            assert forall|y: u32| !entry_uses_file(rmd, list, entry_idx as int, y) by {
                assert forall|g: int, d: int|
                    !(#[trigger] entry_sprite(rmd, list, entry_idx as int, g, d) is Some) by {}
            }
        },
        Some(entry) => {
            let images = entry.images();
            let mut g: usize = 0;
            while g < images.len()
                invariant
                    images@ == rmd.entries@[entry_idx as int].images@,
                    entry_idx < rmd.entries@.len(),
                    g <= images@.len(),
                    out@.no_duplicates(),
                    forall|y: u32| #[trigger]
                        out@.contains(y) <==> start.contains(y) || exists|g2: int, d: int|
                            0 <= g2 < g && is_file(#[trigger] entry_sprite(rmd, list, entry_idx as int, g2, d), y),
                decreases images@.len() - g,
            {
                let img = &images[g];
                let mut d: usize = 0;
                while d < img.image_id.len()
                    invariant
                        images@ == rmd.entries@[entry_idx as int].images@,
                        entry_idx < rmd.entries@.len(),
                        g < images@.len(),
                        *img == images@[g as int],
                        d <= img.image_id@.len(),
                        out@.no_duplicates(),
                        forall|y: u32| #[trigger]
                            out@.contains(y) <==> start.contains(y) || exists|g2: int, d2: int|
                                ((0 <= g2 < g) || (g2 == g && 0 <= d2 < d)) && is_file(#[trigger] entry_sprite(
                                    rmd,
                                    list,
                                    entry_idx as int,
                                    g2,
                                    d2,
                                ), y),
                    decreases img.image_id@.len() - d,
                {
                    let id = img.image_id[d];
                    let ghost before = out@;
                    match list.get_item(id as usize) {
                        Some(item) => {
                            assert(entry_sprite(rmd, list, entry_idx as int, g as int, d as int)
                                == Some(item.entry));
                            push_unique(out, item.entry.file);
                        },
                        None => {
                            assert(entry_sprite(rmd, list, entry_idx as int, g as int, d as int)
                                is None);
                        },
                    }
                    proof {
                        assert forall|y: u32| #[trigger]
                            out@.contains(y) <==> start.contains(y) || exists|g2: int, d2: int|
                                ((0 <= g2 < g) || (g2 == g && 0 <= d2 < d + 1)) && is_file(#[trigger] entry_sprite(
                                    rmd,
                                    list,
                                    entry_idx as int,
                                    g2,
                                    d2,
                                ), y) by {
                            if exists|g2: int, d2: int|
                                ((0 <= g2 < g) || (g2 == g && 0 <= d2 < d + 1)) && is_file(#[trigger] entry_sprite(
                                    rmd,
                                    list,
                                    entry_idx as int,
                                    g2,
                                    d2,
                                ), y) {
                                let (g2, d2) = choose|g2: int, d2: int|
                                    ((0 <= g2 < g) || (g2 == g && 0 <= d2 < d + 1)) && is_file(#[trigger] entry_sprite(
                                        rmd,
                                        list,
                                        entry_idx as int,
                                        g2,
                                        d2,
                                    ), y);
                                if !(g2 == g && d2 == d) {
                                    assert(before.contains(y));
                                }
                            }
                        }
                    }
                    d = d + 1;
                }
                proof {
                    assert forall|y: u32| #[trigger]
                        out@.contains(y) <==> start.contains(y) || exists|g2: int, d2: int|
                            0 <= g2 < g + 1 && is_file(#[trigger] entry_sprite(rmd, list, entry_idx as int, g2, d2), y) by {
                        if exists|g2: int, d2: int|
                            0 <= g2 < g + 1 && is_file(#[trigger] entry_sprite(rmd, list, entry_idx as int, g2, d2), y) {
                            let (g2, d2) = choose|g2: int, d2: int|
                                0 <= g2 < g + 1 && is_file(#[trigger] entry_sprite(
                                    rmd,
                                    list,
                                    entry_idx as int,
                                    g2,
                                    d2,
                                ), y);
                            if g2 == g {
                                assert(0 <= d2 < img.image_id@.len());
                            }
                        }
                    }
                }
                g = g + 1;
            }
            proof {
                assert forall|y: u32| #[trigger]
                    out@.contains(y) <==> start.contains(y) || entry_uses_file(
                        rmd,
                        list,
                        entry_idx as int,
                        y,
                    ) by {
                    if entry_uses_file(rmd, list, entry_idx as int, y) {
                        let (g2, d2) = choose|g2: int, d2: int| is_file(#[trigger]
                            entry_sprite(rmd, list, entry_idx as int, g2, d2), y);
                        assert(0 <= g2 < images@.len());
                    }
                }
            }
        },
    }
}

/// The sprite-file numbers of the first `n` ids of image `g` of entry
/// `ei`, in order, one per id whose list item exists.
pub open spec fn image_files(rmd: &Rmd, list: &ListAsset, ei: int, g: int, n: nat) -> Seq<u32>
    decreases n,
{
    if n == 0 {
        Seq::empty()
    } else {
        image_files(rmd, list, ei, g, (n - 1) as nat) + match entry_sprite(rmd, list, ei, g, n - 1) {
            Some(e) => seq![e.file],
            None => Seq::empty(),
        }
    }
}

/// The sprite-file numbers of the first `n` images of entry `ei`, in order.
pub open spec fn entry_files(rmd: &Rmd, list: &ListAsset, ei: int, n: nat) -> Seq<u32>
    decreases n,
{
    if n == 0 {
        Seq::empty()
    } else {
        entry_files(rmd, list, ei, (n - 1) as nat) + image_files(
            rmd,
            list,
            ei,
            n - 1,
            rmd.entries@[ei].images@[n - 1].image_id@.len(),
        )
    }
}

/// The sprite-file numbers entry `ei` draws, in order; none when the file
/// lacks the entry.
pub open spec fn entry_file_seq(rmd: &Rmd, list: &ListAsset, ei: int) -> Seq<u32> {
    if 0 <= ei < rmd.entries@.len() {
        entry_files(rmd, list, ei, rmd.entries@[ei].images@.len())
    } else {
        Seq::empty()
    }
}

/// The sprite-file numbers of the entries `idx[0..n]`, in order.
pub open spec fn frames_files(rmd: &Rmd, list: &ListAsset, idx: Seq<int>, n: nat) -> Seq<u32>
    decreases n,
{
    if n == 0 {
        Seq::empty()
    } else {
        frames_files(rmd, list, idx, (n - 1) as nat) + entry_file_seq(rmd, list, idx[n - 1])
    }
}

/// The sprite-file numbers a data reference draws, in order over its
/// animation frames, images and ids, repeats kept; none for a reference to
/// file 0 or to a data file that is not loaded.
pub open spec fn reference_files(file: u32, index: int, rmd: Option<&Rmd>, list: &ListAsset) -> Seq<u32> {
    if file == 0 {
        Seq::empty()
    } else {
        match rmd {
            Some(r) => frames_files(
                r,
                list,
                anim_entry_indices_spec(r, index),
                anim_entry_indices_spec(r, index).len(),
            ),
            None => Seq::empty(),
        }
    }
}

proof fn lemma_push_contains(s: Seq<u32>, x: u32)
    ensures
        forall|y: u32| #[trigger] s.push(x).contains(y) <==> s.contains(y) || y == x,
{
    assert forall|y: u32| #[trigger] s.push(x).contains(y) <==> s.contains(y) || y == x by {
        if s.push(x).contains(y) {
            let j = choose|j: int| 0 <= j < s.push(x).len() && s.push(x)[j] == y;
            if j < s.len() {
                assert(s[j] == y);
            }
        }
        if s.contains(y) {
            let j = choose|j: int| 0 <= j < s.len() && s[j] == y;
            assert(s.push(x)[j] == y);
        }
        if y == x {
            assert(s.push(x)[s.len() as int] == x);
        }
    }
}

/// Appends the file numbers of the sprites entry `entry_idx` draws to
/// `out`, in order, repeats kept.
fn append_entry_rle_files(rmd: &Rmd, entry_idx: usize, list: &ListAsset, out: &mut Vec<u32>)
    ensures
        final(out)@ == old(out)@ + entry_file_seq(rmd, list, entry_idx as int),
        forall|y: u32| #[trigger]
            final(out)@.contains(y) <==> old(out)@.contains(y) || entry_uses_file(
                rmd,
                list,
                entry_idx as int,
                y,
            ),
{
    let ghost start = out@;
    match rmd.get_entry(entry_idx) {
        None => {
            assert forall|y: u32| !entry_uses_file(rmd, list, entry_idx as int, y) by {
                assert forall|g: int, d: int|
                    !(#[trigger] entry_sprite(rmd, list, entry_idx as int, g, d) is Some) by {}
            }
            assert(out@ =~= start + entry_file_seq(rmd, list, entry_idx as int));
        },
        Some(entry) => {
            let images = entry.images();
            let mut g: usize = 0;
            while g < images.len()
                invariant
                    images@ == rmd.entries@[entry_idx as int].images@,
                    entry_idx < rmd.entries@.len(),
                    g <= images@.len(),
                    out@ == start + entry_files(rmd, list, entry_idx as int, g as nat),
                    forall|y: u32| #[trigger]
                        out@.contains(y) <==> start.contains(y) || exists|g2: int, d: int|
                            0 <= g2 < g && is_file(#[trigger] entry_sprite(rmd, list, entry_idx as int, g2, d), y),
                decreases images@.len() - g,
            {
                let img = &images[g];
                let ghost at_image = out@;
                let mut d: usize = 0;
                while d < img.image_id.len()
                    invariant
                        images@ == rmd.entries@[entry_idx as int].images@,
                        entry_idx < rmd.entries@.len(),
                        g < images@.len(),
                        *img == images@[g as int],
                        d <= img.image_id@.len(),
                        out@ == at_image + image_files(rmd, list, entry_idx as int, g as int, d as nat),
                        forall|y: u32| #[trigger]
                            out@.contains(y) <==> start.contains(y) || exists|g2: int, d2: int|
                                ((0 <= g2 < g) || (g2 == g && 0 <= d2 < d)) && is_file(#[trigger] entry_sprite(
                                    rmd,
                                    list,
                                    entry_idx as int,
                                    g2,
                                    d2,
                                ), y),
                    decreases img.image_id@.len() - d,
                {
                    let id = img.image_id[d];
                    let ghost before = out@;
                    match list.get_item(id as usize) {
                        Some(item) => {
                            assert(entry_sprite(rmd, list, entry_idx as int, g as int, d as int)
                                == Some(item.entry));
                            out.push(item.entry.file);
                            proof {
                                lemma_push_contains(before, item.entry.file);
                            }
                        },
                        None => {
                            assert(entry_sprite(rmd, list, entry_idx as int, g as int, d as int)
                                is None);
                        },
                    }
                    assert(out@ =~= at_image + image_files(
                        rmd,
                        list,
                        entry_idx as int,
                        g as int,
                        (d + 1) as nat,
                    ));
                    proof {
                        assert forall|y: u32| #[trigger]
                            out@.contains(y) <==> start.contains(y) || exists|g2: int, d2: int|
                                ((0 <= g2 < g) || (g2 == g && 0 <= d2 < d + 1)) && is_file(#[trigger] entry_sprite(
                                    rmd,
                                    list,
                                    entry_idx as int,
                                    g2,
                                    d2,
                                ), y) by {
                            if exists|g2: int, d2: int|
                                ((0 <= g2 < g) || (g2 == g && 0 <= d2 < d + 1)) && is_file(#[trigger] entry_sprite(
                                    rmd,
                                    list,
                                    entry_idx as int,
                                    g2,
                                    d2,
                                ), y) {
                                let (g2, d2) = choose|g2: int, d2: int|
                                    ((0 <= g2 < g) || (g2 == g && 0 <= d2 < d + 1)) && is_file(#[trigger] entry_sprite(
                                        rmd,
                                        list,
                                        entry_idx as int,
                                        g2,
                                        d2,
                                    ), y);
                                if !(g2 == g && d2 == d) {
                                    assert(before.contains(y));
                                }
                            }
                        }
                    }
                    d = d + 1;
                }
                assert(out@ =~= start + entry_files(rmd, list, entry_idx as int, (g + 1) as nat));
                proof {
                    assert forall|y: u32| #[trigger]
                        out@.contains(y) <==> start.contains(y) || exists|g2: int, d2: int|
                            0 <= g2 < g + 1 && is_file(#[trigger] entry_sprite(rmd, list, entry_idx as int, g2, d2), y) by {
                        if exists|g2: int, d2: int|
                            0 <= g2 < g + 1 && is_file(#[trigger] entry_sprite(rmd, list, entry_idx as int, g2, d2), y) {
                            let (g2, d2) = choose|g2: int, d2: int|
                                0 <= g2 < g + 1 && is_file(#[trigger] entry_sprite(
                                    rmd,
                                    list,
                                    entry_idx as int,
                                    g2,
                                    d2,
                                ), y);
                            if g2 == g {
                                assert(0 <= d2 < img.image_id@.len());
                            }
                        }
                    }
                }
                g = g + 1;
            }
            proof {
                assert forall|y: u32| #[trigger]
                    out@.contains(y) <==> start.contains(y) || entry_uses_file(
                        rmd,
                        list,
                        entry_idx as int,
                        y,
                    ) by {
                    if entry_uses_file(rmd, list, entry_idx as int, y) {
                        let (g2, d2) = choose|g2: int, d2: int| is_file(#[trigger]
                            entry_sprite(rmd, list, entry_idx as int, g2, d2), y);
                        assert(0 <= g2 < images@.len());
                    }
                }
            }
        },
    }
}

/// The sprite file numbers a data reference draws, in every animation
/// frame: for each frame's entry, each image and each id whose list item
/// exists, the item's file number, in that order and with repeats. A
/// reference to file 0, or to a data file that is not loaded, gives none.
pub fn collect_rle_file_nums(file: u32, index: usize, rmd: Option<&Rmd>, list: &ListAsset) -> (v: Vec<u32>)
    requires
        rmd matches Some(r) ==> anim_indices_fit(r, index as int),
    ensures
        v@ == reference_files(file, index as int, rmd, list),
        forall|y: u32| #[trigger] v@.contains(y) <==> reference_uses_file(file, index as int, rmd, list, y),
{
    let mut out: Vec<u32> = Vec::new();
    if file == 0 {
        return out;
    }
    let r = match rmd {
        None => {
            return out;
        },
        Some(r) => r,
    };
    let indices = anim_entry_indices(r, index);
    let ghost spec_idx = anim_entry_indices_spec(r, index as int);
    let mut k: usize = 0;
    while k < indices.len()
        invariant
            indices@.map_values(|x: usize| x as int) == spec_idx,
            spec_idx == anim_entry_indices_spec(r, index as int),
            k <= indices@.len(),
            out@ == frames_files(r, list, spec_idx, k as nat),
            forall|y: u32| #[trigger]
                out@.contains(y) <==> exists|k2: int|
                    0 <= k2 < k && entry_uses_file(r, list, #[trigger] spec_idx[k2], y),
        decreases indices@.len() - k,
    {
        let ghost before = out@;
        append_entry_rle_files(r, indices[k], list, &mut out);
        assert(spec_idx[k as int] == indices@[k as int]);
        assert(out@ =~= frames_files(r, list, spec_idx, (k + 1) as nat));
        proof {
            assert forall|y: u32| #[trigger]
                out@.contains(y) <==> exists|k2: int|
                    0 <= k2 < k + 1 && entry_uses_file(r, list, #[trigger] spec_idx[k2], y) by {
                if exists|k2: int| 0 <= k2 < k + 1 && entry_uses_file(r, list, #[trigger] spec_idx[k2], y) {
                    let k2 = choose|k2: int|
                        0 <= k2 < k + 1 && entry_uses_file(r, list, #[trigger] spec_idx[k2], y);
                    if k2 < k {
                        assert(before.contains(y));
                    }
                }
            }
        }
        k = k + 1;
    }
    out
}

/// Whether every sprite entry `entry_idx` draws is cached under `kind`.
pub(crate) fn entry_sprites_ready<H>(
    rmd: &Rmd,
    entry_idx: usize,
    list: &ListAsset,
    kind: SpriteKind,
    cache: &SpriteCache<H>,
) -> (b: bool)
    ensures
        b == entry_sprites_cached(rmd, list, entry_idx as int, kind, cache@),
{
    match rmd.get_entry(entry_idx) {
        None => {
            assert forall|g: int, d: int|
                !(#[trigger] entry_sprite(rmd, list, entry_idx as int, g, d) is Some) by {}
            true
        },
        Some(entry) => {
            let images = entry.images();
            let mut g: usize = 0;
            while g < images.len()
                invariant
                    images@ == rmd.entries@[entry_idx as int].images@,
                    entry_idx < rmd.entries@.len(),
                    g <= images@.len(),
                    forall|g2: int, d: int|
                        0 <= g2 < g ==> (cached_in(#[trigger] entry_sprite(rmd, list, entry_idx as int, g2, d), kind, cache@)),
                decreases images@.len() - g,
            {
                let img = &images[g];
                let mut d: usize = 0;
                while d < img.image_id.len()
                    invariant
                        images@ == rmd.entries@[entry_idx as int].images@,
                        entry_idx < rmd.entries@.len(),
                        g < images@.len(),
                        *img == images@[g as int],
                        d <= img.image_id@.len(),
                        forall|g2: int, d2: int|
                            ((0 <= g2 < g) || (g2 == g && 0 <= d2 < d)) ==> (cached_in(#[trigger] entry_sprite(
                                rmd,
                                list,
                                entry_idx as int,
                                g2,
                                d2,
                            ), kind, cache@)),
                    decreases img.image_id@.len() - d,
                {
                    let id = img.image_id[d];
                    match list.get_item(id as usize) {
                        Some(item) => {
                            assert(entry_sprite(rmd, list, entry_idx as int, g as int, d as int)
                                == Some(item.entry));
                            if !cache.contains(kind, &item.entry) {
                                return false;
                            }
                        },
                        None => {
                            assert(entry_sprite(rmd, list, entry_idx as int, g as int, d as int)
                                is None);
                        },
                    }
                    d = d + 1;
                }
                proof {
                    assert forall|g2: int, d2: int|
                        0 <= g2 < g + 1 implies (cached_in(#[trigger] entry_sprite(
                        rmd,
                        list,
                        entry_idx as int,
                        g2,
                        d2,
                    ), kind, cache@)) by {
                        if g2 == g && entry_sprite(rmd, list, entry_idx as int, g2, d2) is Some {
                            assert(0 <= d2 < img.image_id@.len());
                        }
                    }
                }
                g = g + 1;
            }
            proof {
                assert forall|g2: int, d2: int|
                    (#[trigger] entry_sprite(rmd, list, entry_idx as int, g2, d2) matches Some(e)
                        ==> cache@.contains_key((kind, e))) by {
                    if entry_sprite(rmd, list, entry_idx as int, g2, d2) is Some {
                        assert(0 <= g2 < images@.len());
                    }
                }
            }
            true
        },
    }
}

/// Whether everything a data reference draws, in every animation frame, is
/// cached. A reference to file 0 is ready; one to a data file that is not
/// loaded is not.
pub fn sprites_ready<H>(
    kind: SpriteKind,
    file: u32,
    index: usize,
    rmd: Option<&Rmd>,
    list: &ListAsset,
    cache: &SpriteCache<H>,
) -> (b: bool)
    requires
        rmd matches Some(r) ==> anim_indices_fit(r, index as int),
    ensures
        b == reference_ready(kind, file, index as int, rmd, list, cache@),
{
    if file == 0 {
        return true;
    }
    let r = match rmd {
        None => {
            return false;
        },
        Some(r) => r,
    };
    let indices = anim_entry_indices(r, index);
    let ghost spec_idx = anim_entry_indices_spec(r, index as int);
    let mut k: usize = 0;
    while k < indices.len()
        invariant
            indices@.map_values(|x: usize| x as int) == spec_idx,
            spec_idx == anim_entry_indices_spec(r, index as int),
            k <= indices@.len(),
            file != 0,
            rmd == Some(r),
            forall|k2: int|
                0 <= k2 < k ==> entry_sprites_cached(r, list, #[trigger] spec_idx[k2], kind, cache@),
        decreases indices@.len() - k,
    {
        assert(spec_idx[k as int] == indices@[k as int]);
        if !entry_sprites_ready(r, indices[k], list, kind, cache) {
            assert(!entry_sprites_cached(
                r,
                list,
                anim_entry_indices_spec(r, index as int)[k as int],
                kind,
                cache@,
            ));
            assert(k < anim_entry_indices_spec(r, index as int).len());
            assert(!reference_ready(kind, file, index as int, rmd, list, cache@)) by {
                if reference_ready(kind, file, index as int, rmd, list, cache@) {
                    assert(rmd->0 == r);
                    let kk = k as int;
                    assert(entry_sprites_cached(
                        rmd->0,
                        list,
                        anim_entry_indices_spec(rmd->0, index as int)[kk],
                        kind,
                        cache@,
                    ));
                }
            }
            return false;
        }
        k = k + 1;
    }
    true
}


// ── Layers of a whole map ───────────────────────────────────────────────────

/// Whether the data files of a layer give frame entry indices that fit in
/// a `usize` for every reference of the map.
pub open spec fn layer_anim_fit(map: &GameMap, layer: MapLayer, set: &LoadedRmds) -> bool {
    forall|t: int|
        0 <= t < map.tiles@.len() ==> (set.lookup(#[trigger] layer_entry(map.tiles@[t], layer).file)
            matches Some(r) ==> anim_indices_fit(r, layer_entry(map.tiles@[t], layer).index as int))
}

/// Whether every frame entry index of entry `base` fits in a `usize`.
pub fn anim_fits(rmd: &Rmd, base: usize) -> (b: bool)
    ensures
        b == anim_indices_fit(rmd, base as int),
{
    if rmd.animation_count == 0 || rmd.animations.len() == 0 {
        return true;
    }
    let frames = rmd.animations[0].frames();
    if frames.len() <= 1 {
        return true;
    }
    let stride = rmd.animation_entry_count as usize;
    let mut i: usize = 0;
    while i < frames.len()
        invariant
            has_frames(rmd),
            frames@ == rmd.animations@[0].frames@,
            stride == rmd.animation_entry_count,
            i <= frames@.len(),
            forall|j: int|
                0 <= j < i ==> frame_entry_index(rmd, base as int, #[trigger] frames@[j]) <= usize::MAX,
        decreases frames@.len() - i,
    {
        let f = frames[i];
        let fu: usize = if f > 0 {
            f as usize
        } else {
            0
        };
        match stride.checked_mul(fu) {
            Some(step) => {
                match base.checked_add(step) {
                    Some(_) => {},
                    None => {
                        assert(frame_entry_index(rmd, base as int, frames@[i as int]) > usize::MAX);
                        return false;
                    },
                }
            },
            None => {
                assert(stride * fu > usize::MAX);
                assert(frame_entry_index(rmd, base as int, frames@[i as int]) > usize::MAX);
                return false;
            },
        }
        i = i + 1;
    }
    true
}

/// Whether every reference of a layer of the map gives frame entry indices
/// that fit in a `usize`.
pub fn layer_anim_fits(map: &GameMap, layer: MapLayer, set: &LoadedRmds) -> (b: bool)
    requires
        set.wf(),
    ensures
        b == layer_anim_fit(map, layer, set),
{
    let mut t: usize = 0;
    while t < map.tiles.len()
        invariant
            set.wf(),
            t <= map.tiles@.len(),
            forall|u: int|
                0 <= u < t ==> (set.lookup(#[trigger] layer_entry(map.tiles@[u], layer).file) matches Some(
                    r,
                ) ==> anim_indices_fit(r, layer_entry(map.tiles@[u], layer).index as int)),
        decreases map.tiles@.len() - t,
    {
        let tile = &map.tiles[t];
        let e = match layer {
            MapLayer::Tile => tile.tle_rmd_entry,
            MapLayer::Object => tile.obj_rmd_entry,
        };
        assert(e == layer_entry(map.tiles@[t as int], layer));
        match set.get(e.file) {
            Some(r) => {
                if !anim_fits(r, e.index as usize) {
                    return false;
                }
            },
            None => {},
        }
        t = t + 1;
    }
    true
}

/// Whether tile `t` of a layer draws a sprite of sprite file `n`.
pub open spec fn tile_uses_file(
    map: &GameMap,
    layer: MapLayer,
    set: &LoadedRmds,
    list: &ListAsset,
    t: int,
    n: u32,
) -> bool {
    let e = layer_entry(map.tiles@[t], layer);
    reference_uses_file(e.file, e.index as int, set.lookup(e.file), list, n)
}

/// Whether everything tile `t` draws in a layer is cached.
pub open spec fn tile_ready<H>(
    map: &GameMap,
    layer: MapLayer,
    set: &LoadedRmds,
    list: &ListAsset,
    cache: Map<(SpriteKind, Entry), crate::resources::CachedSprite<H>>,
    t: int,
) -> bool {
    let e = layer_entry(map.tiles@[t], layer);
    reference_ready(layer.spec_sprite_kind(), e.file, e.index as int, set.lookup(e.file), list, cache)
}

/// The distinct non-zero data-file numbers a layer of the map refers to.
pub fn layer_rmd_files(map: &GameMap, layer: MapLayer) -> (v: HashSet<u32>)
    ensures
        forall|y: u32| #[trigger]
            v@.contains(y) <==> y != 0 && exists|t: int|
                0 <= t < map.tiles@.len() && #[trigger] layer_entry(map.tiles@[t], layer).file == y,
{
    let mut v: HashSet<u32> = HashSet::new();
    let mut t: usize = 0;
    while t < map.tiles.len()
        invariant
            t <= map.tiles@.len(),
            forall|y: u32| #[trigger]
                v@.contains(y) <==> y != 0 && exists|t2: int|
                    0 <= t2 < t && #[trigger] layer_entry(map.tiles@[t2], layer).file == y,
        decreases map.tiles@.len() - t,
    {
        let tile = map.tiles[t];
        let e = match layer {
            MapLayer::Tile => tile.tle_rmd_entry,
            MapLayer::Object => tile.obj_rmd_entry,
        };
        assert(e == layer_entry(map.tiles@[t as int], layer));
        let ghost before = v@;
        if e.file != 0 {
            v.insert(e.file);
        }
        proof {
            assert forall|y: u32| #[trigger]
                v@.contains(y) <==> y != 0 && exists|t2: int|
                    0 <= t2 < t + 1 && #[trigger] layer_entry(map.tiles@[t2], layer).file == y by {
                if y != 0 && exists|t2: int|
                    0 <= t2 < t + 1 && #[trigger] layer_entry(map.tiles@[t2], layer).file == y {
                    let t2 = choose|t2: int|
                        0 <= t2 < t + 1 && #[trigger] layer_entry(map.tiles@[t2], layer).file == y;
                    if t2 < t {
                        assert(before.contains(y));
                    }
                }
            }
        }
        t = t + 1;
    }
    v
}

/// Whether every data file of `files` is loaded.
pub fn rmds_loaded(files: &HashSet<u32>, set: &LoadedRmds) -> (b: bool)
    requires
        set.wf(),
    ensures
        b == forall|y: u32| #[trigger] files@.contains(y) ==> set.lookup(y) is Some,
{
    let mut all = true;
    let ghost mut done: Set<u32> = Set::empty();
    proof {
        assert(vstd::std_specs::iter::IteratorSpec::remaining(
            &vstd::std_specs::hash::spec_hash_keys_iter(files),
        ).unref().to_set() == files@);
    }
    for x in it: files.iter()
        invariant
            set.wf(),
            files@ == it.seq().unref().to_set(),
            done == it.seq().take(it.index() as int).map_values(|r: &u32| *r).to_set(),
            it.index() == it.seq().len() ==> done == files@,
            all == forall|y: u32| #[trigger] done.contains(y) ==> set.lookup(y) is Some,
    {
        proof {
            let pre = it.seq().take(it.index() as int).map_values(|r: &u32| *r);
            let post = it.seq().take(it.index() + 1).map_values(|r: &u32| *r);
            assert(post =~= pre.push(*x));
            assert(post.to_set() =~= pre.to_set().insert(*x)) by {
                assert forall|y: u32| post.to_set().contains(y) <==> pre.to_set().insert(*x).contains(y) by {
                    if post.to_set().contains(y) {
                        let j = choose|j: int| 0 <= j < post.len() && post[j] == y;
                        if j < pre.len() {
                            assert(pre[j] == y);
                            assert(pre.contains(y));
                        }
                    }
                    if pre.to_set().contains(y) {
                        let j = choose|j: int| 0 <= j < pre.len() && pre[j] == y;
                        assert(post[j] == y);
                        assert(post.contains(y));
                    }
                    if y == *x {
                        assert(post[pre.len() as int] == y);
                        assert(post.contains(y));
                    }
                }
            }
            done = done.insert(*x);
        }
        assert(it.index() + 1 == it.seq().len() ==> done == files@) by {
            if it.index() + 1 == it.seq().len() {
                assert(it.seq().take(it.index() + 1) =~= it.seq());
                assert(it.seq().take(it.index() + 1).map_values(|r: &u32| *r) =~= it.seq().unref());
            }
        }
        let ghost before_done = it.seq().take(it.index() as int).map_values(|r: &u32| *r).to_set();
        let found = set.get(*x).is_some();
        if !found {
            all = false;
        }
        proof {
            if all {
                assert forall|y: u32| #[trigger] done.contains(y) implies set.lookup(y) is Some by {
                    if y != *x {
                        assert(before_done.contains(y));
                    }
                }
            } else {
                if found {
                    let y = choose|y: u32| #[trigger] before_done.contains(y) && !(set.lookup(y) is Some);
                    assert(done.contains(y));
                } else {
                    assert(done.contains(*x));
                }
            }
        }
    }
    assert(done =~= files@);
    all
}

/// The distinct sprite-file numbers that a layer of the map draws, over
/// every animation frame of every tile.
pub fn layer_rle_files(map: &GameMap, layer: MapLayer, set: &LoadedRmds, list: &ListAsset) -> (v: HashSet<u32>)
    requires
        set.wf(),
        layer_anim_fit(map, layer, set),
    ensures
        forall|y: u32| #[trigger]
            v@.contains(y) <==> exists|t: int|
                0 <= t < map.tiles@.len() && tile_uses_file(map, layer, set, list, t, y),
{
    let mut v: HashSet<u32> = HashSet::new();
    let mut t: usize = 0;
    while t < map.tiles.len()
        invariant
            set.wf(),
            layer_anim_fit(map, layer, set),
            t <= map.tiles@.len(),
            forall|y: u32| #[trigger]
                v@.contains(y) <==> exists|t2: int|
                    0 <= t2 < t && tile_uses_file(map, layer, set, list, t2, y),
        decreases map.tiles@.len() - t,
    {
        let tile = map.tiles[t];
        let e = match layer {
            MapLayer::Tile => tile.tle_rmd_entry,
            MapLayer::Object => tile.obj_rmd_entry,
        };
        assert(e == layer_entry(map.tiles@[t as int], layer));
        let ghost before = v@;
        let rmd = set.get(e.file);
        let w = collect_rle_file_nums(e.file, e.index as usize, rmd, list);
        let mut j: usize = 0;
        while j < w.len()
            invariant
                j <= w@.len(),
                forall|y: u32| #[trigger]
                    v@.contains(y) <==> before.contains(y) || exists|j2: int| 0 <= j2 < j && w@[j2] == y,
            decreases w@.len() - j,
        {
            v.insert(w[j]);
            proof {
                assert forall|y: u32| #[trigger]
                    v@.contains(y) <==> before.contains(y) || exists|j2: int| 0 <= j2 < j + 1 && w@[j2] == y by {
                    if y == w@[j as int] {
                    } else if exists|j2: int| 0 <= j2 < j + 1 && w@[j2] == y {
                        let j2 = choose|j2: int| 0 <= j2 < j + 1 && w@[j2] == y;
                        assert(j2 < j);
                    }
                }
            }
            j = j + 1;
        }
        assert forall|y: u32| #[trigger] v@.contains(y) <==> before.contains(y) || w@.contains(y) by {
            if w@.contains(y) {
                let j2 = choose|j2: int| 0 <= j2 < w@.len() && w@[j2] == y;
            }
        }
        proof {
            assert forall|y: u32| #[trigger]
                v@.contains(y) <==> exists|t2: int|
                    0 <= t2 < t + 1 && tile_uses_file(map, layer, set, list, t2, y) by {
                if exists|t2: int| 0 <= t2 < t + 1 && tile_uses_file(map, layer, set, list, t2, y) {
                    let t2 = choose|t2: int|
                        0 <= t2 < t + 1 && tile_uses_file(map, layer, set, list, t2, y);
                    if t2 < t {
                        assert(before.contains(y));
                    }
                }
                if v@.contains(y) && !before.contains(y) {
                    assert(tile_uses_file(map, layer, set, list, t as int, y));
                }
            }
        }
        t = t + 1;
    }
    v
}

/// Whether everything both layers of the map draw, in every animation
/// frame, is cached.
pub fn all_sprites_ready<H>(
    map: &GameMap,
    tile_rmds: &LoadedRmds,
    obj_rmds: &LoadedRmds,
    tile_list: &ListAsset,
    obj_list: &ListAsset,
    cache: &SpriteCache<H>,
) -> (b: bool)
    requires
        tile_rmds.wf(),
        obj_rmds.wf(),
        layer_anim_fit(map, MapLayer::Tile, tile_rmds),
        layer_anim_fit(map, MapLayer::Object, obj_rmds),
    ensures
        b == forall|t: int|
            0 <= t < map.tiles@.len() ==> #[trigger] tile_ready(
                map,
                MapLayer::Tile,
                tile_rmds,
                tile_list,
                cache@,
                t,
            ) && tile_ready(map, MapLayer::Object, obj_rmds, obj_list, cache@, t),
{
    let mut t: usize = 0;
    while t < map.tiles.len()
        invariant
            tile_rmds.wf(),
            obj_rmds.wf(),
            layer_anim_fit(map, MapLayer::Tile, tile_rmds),
            layer_anim_fit(map, MapLayer::Object, obj_rmds),
            t <= map.tiles@.len(),
            forall|t2: int|
                0 <= t2 < t ==> #[trigger] tile_ready(
                    map,
                    MapLayer::Tile,
                    tile_rmds,
                    tile_list,
                    cache@,
                    t2,
                ) && tile_ready(map, MapLayer::Object, obj_rmds, obj_list, cache@, t2),
        decreases map.tiles@.len() - t,
    {
        let tile = map.tiles[t];
        let te = tile.tle_rmd_entry;
        assert(te == layer_entry(map.tiles@[t as int], MapLayer::Tile));
        if !sprites_ready(
            SpriteKind::Tile,
            te.file,
            te.index as usize,
            tile_rmds.get(te.file),
            tile_list,
            cache,
        ) {
            assert(!tile_ready(map, MapLayer::Tile, tile_rmds, tile_list, cache@, t as int));
            return false;
        }
        let oe = tile.obj_rmd_entry;
        assert(oe == layer_entry(map.tiles@[t as int], MapLayer::Object));
        if !sprites_ready(
            SpriteKind::Object,
            oe.file,
            oe.index as usize,
            obj_rmds.get(oe.file),
            obj_list,
            cache,
        ) {
            assert(tile_ready(map, MapLayer::Tile, tile_rmds, tile_list, cache@, t as int));
            assert(!tile_ready(map, MapLayer::Object, obj_rmds, obj_list, cache@, t as int));
            return false;
        }
        assert(tile_ready(map, MapLayer::Tile, tile_rmds, tile_list, cache@, t as int));
        assert(tile_ready(map, MapLayer::Object, obj_rmds, obj_list, cache@, t as int));
        assert forall|t2: int|
            0 <= t2 < t + 1 implies #[trigger] tile_ready(
            map,
            MapLayer::Tile,
            tile_rmds,
            tile_list,
            cache@,
            t2,
        ) && tile_ready(map, MapLayer::Object, obj_rmds, obj_list, cache@, t2) by {}
        t = t + 1;
    }
    true
}

// ── Tile positions ──────────────────────────────────────────────────────────

/// The grid position of the `t`-th tile when positions advance along a row
/// and wrap to the next row once `x` reaches `stride`.
pub open spec fn tile_position(t: nat, stride: int) -> (int, int)
    decreases t,
{
    if t == 0 {
        (0, 0)
    } else {
        let p = tile_position((t - 1) as nat, stride);
        if p.0 + 1 >= stride {
            (0, p.1 + 1)
        } else {
            (p.0 + 1, p.1)
        }
    }
}

/// Positions never run ahead of the tile count.
pub proof fn lemma_tile_position_bounds(t: nat, stride: int)
    ensures
        0 <= tile_position(t, stride).0 <= t,
        0 <= tile_position(t, stride).1 <= t,
    decreases t,
{
    if t > 0 {
        lemma_tile_position_bounds((t - 1) as nat, stride);
    }
}

/// With a positive stride the `t`-th tile is at column `t % stride` of row
/// `t / stride`: positions walk the map in row-major order.
pub proof fn lemma_tile_position_row_major(t: nat, stride: int)
    requires
        stride > 0,
    ensures
        tile_position(t, stride) == (t as int % stride, t as int / stride),
    decreases t,
{
    if t > 0 {
        lemma_tile_position_row_major((t - 1) as nat, stride);
        let p = ((t - 1) as int % stride, (t - 1) as int / stride);
        assert(tile_position(t, stride) == (if p.0 + 1 >= stride {
            (0, p.1 + 1)
        } else {
            (p.0 + 1, p.1)
        }));
        assert(p.0 + 1 >= stride ==> t as int % stride == 0 && t as int / stride == p.1 + 1)
            by (nonlinear_arith)
            requires
                stride > 0,
                t >= 1,
                p == ((t - 1) as int % stride, (t - 1) as int / stride),
        ;
        assert(p.0 + 1 < stride ==> t as int % stride == p.0 + 1 && t as int / stride == p.1)
            by (nonlinear_arith)
            requires
                stride > 0,
                t >= 1,
                p == ((t - 1) as int % stride, (t - 1) as int / stride),
        ;
    } else {
        assert(0int % stride == 0 && 0int / stride == 0) by (nonlinear_arith)
            requires
                stride > 0,
        ;
    }
}

/// Moves to the next tile position: one column right, wrapping to the
/// start of the next row when the column reaches `stride`.
pub fn next_tile(x: &mut i32, y: &mut i32, stride: i32)
    requires
        *old(x) < i32::MAX,
        *old(y) < i32::MAX,
    ensures
        *old(x) + 1 >= stride ==> *final(x) == 0 && *final(y) == *old(y) + 1,
        *old(x) + 1 < stride ==> *final(x) == *old(x) + 1 && *final(y) == *old(y),
{
    *x += 1;
    if *x >= stride {
        *x = 0;
        *y += 1;
    }
}


// ── Draw lists ──────────────────────────────────────────────────────────────

/// A source rectangle of a data-file image, in sprite pixels.
#[derive(Clone, Copy, Debug, PartialEq, Eq, Structural)]
pub struct SourceRect {
    pub x1: i32,
    pub y1: i32,
    pub x2: i32,
    pub y2: i32,
}

/// One animation frame of a tile sprite: which cached sprite to show and
/// which part of it.
#[derive(Clone, Copy, Debug, PartialEq, Eq, Structural)]
pub struct TileFrame {
    pub entry: Entry,
    pub src: SourceRect,
}

/// A tile sprite to spawn at the top-left corner of tile `(tile_x, tile_y)`,
/// stretched to one tile, with its animation frames when it has more than
/// one.
#[derive(Debug)]
pub struct TileSpriteSpec {
    pub tile_x: i32,
    pub tile_y: i32,
    pub entry: Entry,
    pub src: SourceRect,
    pub frames: Vec<TileFrame>,
}

pub struct TileSpriteView {
    pub tile_x: i32,
    pub tile_y: i32,
    pub entry: Entry,
    pub src: SourceRect,
    pub frames: Seq<TileFrame>,
}

impl View for TileSpriteSpec {
    type V = TileSpriteView;

    open spec fn view(&self) -> TileSpriteView {
        TileSpriteView {
            tile_x: self.tile_x,
            tile_y: self.tile_y,
            entry: self.entry,
            src: self.src,
            frames: self.frames@,
        }
    }
}

pub open spec fn tile_views(v: Seq<TileSpriteSpec>) -> Seq<TileSpriteView> {
    v.map_values(|s: TileSpriteSpec| s@)
}

/// The tile frame that id `d` of image `g` of entry `eidx` shows: the image
/// has a source area, the list has the item and its sprite is cached.
pub open spec fn tile_frame_spec<H>(
    rmd: &Rmd,
    list: &ListAsset,
    cache: Map<(SpriteKind, Entry), crate::resources::CachedSprite<H>>,
    eidx: int,
    g: int,
    d: int,
) -> Option<TileFrame> {
    match entry_sprite(rmd, list, eidx, g, d) {
        Some(e) => {
            let img = rmd.entries@[eidx].images@[g];
            if img.source_x2 > img.source_x1 && img.source_y2 > img.source_y1 && cache.contains_key(
                (SpriteKind::Tile, e),
            ) {
                Some(
                    TileFrame {
                        entry: e,
                        src: SourceRect {
                            x1: img.source_x1,
                            y1: img.source_y1,
                            x2: img.source_x2,
                            y2: img.source_y2,
                        },
                    },
                )
            } else {
                None
            }
        },
        None => None,
    }
}

/// The frames of image `g`, id `d`, over the first `n` frame entries.
pub open spec fn tile_frames_upto<H>(
    rmd: &Rmd,
    list: &ListAsset,
    cache: Map<(SpriteKind, Entry), crate::resources::CachedSprite<H>>,
    idxs: Seq<int>,
    g: int,
    d: int,
    n: nat,
) -> Seq<TileFrame>
    decreases n,
{
    if n == 0 {
        Seq::empty()
    } else {
        tile_frames_upto(rmd, list, cache, idxs, g, d, (n - 1) as nat) + match tile_frame_spec(
            rmd,
            list,
            cache,
            idxs[n - 1],
            g,
            d,
        ) {
            Some(f) => seq![f],
            None => Seq::empty(),
        }
    }
}

/// The animation of a tile sprite: its frames when the entry is animated
/// and more than one frame can be shown, otherwise none.
pub open spec fn tile_anim_frames<H>(
    rmd: &Rmd,
    list: &ListAsset,
    cache: Map<(SpriteKind, Entry), crate::resources::CachedSprite<H>>,
    idxs: Seq<int>,
    g: int,
    d: int,
) -> Seq<TileFrame> {
    let f = tile_frames_upto(rmd, list, cache, idxs, g, d, idxs.len());
    if idxs.len() > 1 && f.len() > 1 {
        f
    } else {
        Seq::empty()
    }
}

/// The tile sprites of the first `n` ids of image `g` of entry `ti`.
pub open spec fn tile_sprites_image<H>(
    rmd: &Rmd,
    list: &ListAsset,
    cache: Map<(SpriteKind, Entry), crate::resources::CachedSprite<H>>,
    ti: int,
    idxs: Seq<int>,
    tx: i32,
    ty: i32,
    g: int,
    n: nat,
) -> Seq<TileSpriteView>
    decreases n,
{
    if n == 0 {
        Seq::empty()
    } else {
        tile_sprites_image(rmd, list, cache, ti, idxs, tx, ty, g, (n - 1) as nat) + match tile_frame_spec(
            rmd,
            list,
            cache,
            ti,
            g,
            n - 1,
        ) {
            Some(f) => seq![
                TileSpriteView {
                    tile_x: tx,
                    tile_y: ty,
                    entry: f.entry,
                    src: f.src,
                    frames: tile_anim_frames(rmd, list, cache, idxs, g, n - 1),
                },
            ],
            None => Seq::empty(),
        }
    }
}

/// The tile sprites of the first `n` images of entry `ti`.
pub open spec fn tile_sprites_entry<H>(
    rmd: &Rmd,
    list: &ListAsset,
    cache: Map<(SpriteKind, Entry), crate::resources::CachedSprite<H>>,
    ti: int,
    idxs: Seq<int>,
    tx: i32,
    ty: i32,
    n: nat,
) -> Seq<TileSpriteView>
    decreases n,
{
    if n == 0 {
        Seq::empty()
    } else {
        tile_sprites_entry(rmd, list, cache, ti, idxs, tx, ty, (n - 1) as nat) + tile_sprites_image(
            rmd,
            list,
            cache,
            ti,
            idxs,
            tx,
            ty,
            n - 1,
            rmd.entries@[ti].images@[n - 1].image_id@.len(),
        )
    }
}

/// The tile sprites of map tile `t` placed at `(tx, ty)`: none for a
/// reference to file 0, to a data file that is not loaded, or to a missing
/// entry.
pub open spec fn tile_sprites_of_tile<H>(
    map: &GameMap,
    set: &LoadedRmds,
    list: &ListAsset,
    cache: Map<(SpriteKind, Entry), crate::resources::CachedSprite<H>>,
    t: int,
    tx: i32,
    ty: i32,
) -> Seq<TileSpriteView> {
    let e = layer_entry(map.tiles@[t], MapLayer::Tile);
    if e.file == 0 {
        Seq::empty()
    } else {
        match set.lookup(e.file) {
            None => Seq::empty(),
            Some(rmd) => if (e.index as int) < rmd.entries@.len() {
                tile_sprites_entry(
                    rmd,
                    list,
                    cache,
                    e.index as int,
                    anim_entry_indices_spec(rmd, e.index as int),
                    tx,
                    ty,
                    rmd.entries@[e.index as int].images@.len(),
                )
            } else {
                Seq::empty()
            },
        }
    }
}

/// The tile sprites of the first `n` map tiles, each at its position.
pub open spec fn tile_layer_sprites<H>(
    map: &GameMap,
    set: &LoadedRmds,
    list: &ListAsset,
    cache: Map<(SpriteKind, Entry), crate::resources::CachedSprite<H>>,
    stride: int,
    n: nat,
) -> Seq<TileSpriteView>
    decreases n,
{
    if n == 0 {
        Seq::empty()
    } else {
        let p = tile_position((n - 1) as nat, stride);
        tile_layer_sprites(map, set, list, cache, stride, (n - 1) as nat) + tile_sprites_of_tile(
            map,
            set,
            list,
            cache,
            n - 1,
            p.0 as i32,
            p.1 as i32,
        )
    }
}

fn tile_frame_at<H>(
    rmd: &Rmd,
    list: &ListAsset,
    cache: &SpriteCache<H>,
    eidx: usize,
    g: usize,
    d: usize,
) -> (r: Option<TileFrame>)
    ensures
        r == tile_frame_spec(rmd, list, cache@, eidx as int, g as int, d as int),
{
    let entry = match rmd.get_entry(eidx) {
        Some(e) => e,
        None => {
            return None;
        },
    };
    if g >= entry.images.len() {
        return None;
    }
    let img = &entry.images[g];
    if d >= img.image_id.len() {
        return None;
    }
    let item = match list.get_item(img.image_id[d] as usize) {
        Some(i) => i,
        None => {
            return None;
        },
    };
    if img.source_x2 <= img.source_x1 || img.source_y2 <= img.source_y1 {
        return None;
    }
    if !cache.contains(SpriteKind::Tile, &item.entry) {
        return None;
    }
    Some(
        TileFrame {
            entry: item.entry,
            src: SourceRect {
                x1: img.source_x1,
                y1: img.source_y1,
                x2: img.source_x2,
                y2: img.source_y2,
            },
        },
    )
}

/// The frames of id `id_idx` of image `img_idx` over every frame entry of
/// `entry_indices`: a frame whose entry, image, id, list item or cached
/// sprite is missing, or whose image has no source area, is left out.
pub fn collect_tile_frames<H>(
    entry_indices: &Vec<usize>,
    img_idx: usize,
    id_idx: usize,
    rmd: &Rmd,
    list: &ListAsset,
    cache: &SpriteCache<H>,
) -> (frames: Vec<TileFrame>)
    ensures
        frames@ == tile_frames_upto(
            rmd,
            list,
            cache@,
            entry_indices@.map_values(|x: usize| x as int),
            img_idx as int,
            id_idx as int,
            entry_indices@.len(),
        ),
{
    let ghost idxs = entry_indices@.map_values(|x: usize| x as int);
    let mut frames: Vec<TileFrame> = Vec::new();
    let mut k: usize = 0;
    while k < entry_indices.len()
        invariant
            idxs == entry_indices@.map_values(|x: usize| x as int),
            k <= entry_indices@.len(),
            frames@ == tile_frames_upto(
                rmd,
                list,
                cache@,
                idxs,
                img_idx as int,
                id_idx as int,
                k as nat,
            ),
        decreases entry_indices@.len() - k,
    {
        let f = tile_frame_at(rmd, list, cache, entry_indices[k], img_idx, id_idx);
        assert(idxs[k as int] == entry_indices@[k as int]);
        let ghost before = frames@;
        match f {
            Some(fr) => {
                frames.push(fr);
            },
            None => {},
        }
        assert(frames@ =~= tile_frames_upto(
            rmd,
            list,
            cache@,
            idxs,
            img_idx as int,
            id_idx as int,
            (k + 1) as nat,
        ));
        k = k + 1;
    }
    frames
}

/// Adds the tile sprites of entry `ti` placed at `(tx, ty)` to `out`.
fn add_tile_entry_sprites<H>(
    rmd: &Rmd,
    list: &ListAsset,
    cache: &SpriteCache<H>,
    ti: usize,
    entry_indices: &Vec<usize>,
    tx: i32,
    ty: i32,
    out: &mut Vec<TileSpriteSpec>,
)
    requires
        ti < rmd.entries@.len(),
    ensures
        tile_views(final(out)@) == tile_views(old(out)@) + tile_sprites_entry(
            rmd,
            list,
            cache@,
            ti as int,
            entry_indices@.map_values(|x: usize| x as int),
            tx,
            ty,
            rmd.entries@[ti as int].images@.len(),
        ),
{
    let ghost idxs = entry_indices@.map_values(|x: usize| x as int);
    let ghost start = tile_views(out@);
    let is_animated = entry_indices.len() > 1;
    let images = &rmd.entries[ti].images;
    let mut g: usize = 0;
    while g < images.len()
        invariant
            idxs == entry_indices@.map_values(|x: usize| x as int),
            ti < rmd.entries@.len(),
            *images == rmd.entries@[ti as int].images,
            is_animated == (entry_indices@.len() > 1),
            g <= images@.len(),
            tile_views(out@) == start + tile_sprites_entry(
                rmd,
                list,
                cache@,
                ti as int,
                idxs,
                tx,
                ty,
                g as nat,
            ),
        decreases images@.len() - g,
    {
        let ghost at_image = tile_views(out@);
        let n_ids = images[g].image_id.len();
        let mut d: usize = 0;
        while d < n_ids
            invariant
                idxs == entry_indices@.map_values(|x: usize| x as int),
                ti < rmd.entries@.len(),
                *images == rmd.entries@[ti as int].images,
                is_animated == (entry_indices@.len() > 1),
                g < images@.len(),
                n_ids == images@[g as int].image_id@.len(),
                d <= n_ids,
                tile_views(out@) == at_image + tile_sprites_image(
                    rmd,
                    list,
                    cache@,
                    ti as int,
                    idxs,
                    tx,
                    ty,
                    g as int,
                    d as nat,
                ),
            decreases n_ids - d,
        {
            let ghost before = tile_views(out@);
            match tile_frame_at(rmd, list, cache, ti, g, d) {
                Some(f) => {
                    let frames = if is_animated {
                        let fr = collect_tile_frames(entry_indices, g, d, rmd, list, cache);
                        if fr.len() > 1 {
                            fr
                        } else {
                            Vec::new()
                        }
                    } else {
                        Vec::new()
                    };
                    assert(frames@ =~= tile_anim_frames(rmd, list, cache@, idxs, g as int, d as int));
                    let sprite = TileSpriteSpec { tile_x: tx, tile_y: ty, entry: f.entry, src: f.src, frames };
                    let ghost old_vec = out@;
                    let ghost sv = sprite@;
                    out.push(sprite);
                    assert(out@ == old_vec.push(sprite));
                    assert(tile_views(out@) =~= tile_views(old_vec).push(sv));
                },
                None => {},
            }
            assert(tile_views(out@) =~= at_image + tile_sprites_image(
                rmd,
                list,
                cache@,
                ti as int,
                idxs,
                tx,
                ty,
                g as int,
                (d + 1) as nat,
            ));
            d = d + 1;
        }
        assert(tile_views(out@) =~= start + tile_sprites_entry(
            rmd,
            list,
            cache@,
            ti as int,
            idxs,
            tx,
            ty,
            (g + 1) as nat,
        ));
        g = g + 1;
    }
}


/// The tile layer's sprites of the whole map, tile by tile in map order,
/// each tile at its grid position.
pub fn tile_layer_draw_list<H>(
    map: &GameMap,
    set: &LoadedRmds,
    list: &ListAsset,
    cache: &SpriteCache<H>,
) -> (v: Vec<TileSpriteSpec>)
    requires
        set.wf(),
        layer_anim_fit(map, MapLayer::Tile, set),
        map.tiles@.len() < i32::MAX,
    ensures
        tile_views(v@) == tile_layer_sprites(
            map,
            set,
            list,
            cache@,
            (map.size_x as i32) as int,
            map.tiles@.len(),
        ),
{
    let stride = map.size_x() as i32;
    let mut out: Vec<TileSpriteSpec> = Vec::new();
    let mut tile_x: i32 = 0;
    let mut tile_y: i32 = 0;
    let mut t: usize = 0;
    while t < map.tiles.len()
        invariant
            set.wf(),
            layer_anim_fit(map, MapLayer::Tile, set),
            map.tiles@.len() < i32::MAX,
            stride == (map.size_x as i32),
            t <= map.tiles@.len(),
            (tile_x as int, tile_y as int) == tile_position(t as nat, stride as int),
            tile_views(out@) == tile_layer_sprites(
                map,
                set,
                list,
                cache@,
                stride as int,
                t as nat,
            ),
        decreases map.tiles@.len() - t,
    {
        proof {
            lemma_tile_position_bounds(t as nat, stride as int);
        }
        let e = map.tiles[t].tle_rmd_entry;
        assert(e == layer_entry(map.tiles@[t as int], MapLayer::Tile));
        let ghost start = tile_views(out@);
        if e.file != 0 {
            match set.get(e.file) {
                Some(rmd) => {
                    let entry_indices = anim_entry_indices(rmd, e.index as usize);
                    if (e.index as usize) < rmd.entries.len() {
                        add_tile_entry_sprites(
                            rmd,
                            list,
                            cache,
                            e.index as usize,
                            &entry_indices,
                            tile_x,
                            tile_y,
                            &mut out,
                        );
                    }
                },
                None => {},
            }
        }
        assert(tile_views(out@) =~= tile_layer_sprites(
            map,
            set,
            list,
            cache@,
            stride as int,
            (t + 1) as nat,
        ));
        next_tile(&mut tile_x, &mut tile_y, stride);
        t = t + 1;
    }
    out
}

/// One frame of an object sprite: which cached sprite to show, which part
/// of it, and where (world pixels, y pointing up).
#[derive(Clone, Copy, Debug, PartialEq, Eq, Structural)]
pub struct ObjectFrame {
    pub entry: Entry,
    pub clip: crate::systems::ClippedSource,
    pub x: i64,
    pub y: i64,
}

/// An object sprite to spawn: its first frame, draw order, opacity class
/// and animation frames when it has more than one.
#[derive(Debug)]
pub struct ObjectSpriteSpec {
    pub tile_x: i32,
    pub tile_y: i32,
    /// Index of the image inside its data-file entry.
    pub img_idx: usize,
    pub render_z: i32,
    /// Draw order: `24 + 24 * tile_y + img_idx - render_z`, that is 24 times
    /// the depth `1 + tile_y + (img_idx - render_z) / 24`.
    pub z_key: i128,
    /// Layers 1 to 3 are drawn translucent.
    pub shadowed: bool,
    pub frame: ObjectFrame,
    pub frames: Vec<ObjectFrame>,
}

pub struct ObjectSpriteView {
    pub tile_x: i32,
    pub tile_y: i32,
    pub img_idx: int,
    pub render_z: i32,
    pub z_key: int,
    pub shadowed: bool,
    pub frame: ObjectFrame,
    pub frames: Seq<ObjectFrame>,
}

impl View for ObjectSpriteSpec {
    type V = ObjectSpriteView;

    open spec fn view(&self) -> ObjectSpriteView {
        ObjectSpriteView {
            tile_x: self.tile_x,
            tile_y: self.tile_y,
            img_idx: self.img_idx as int,
            render_z: self.render_z,
            z_key: self.z_key as int,
            shadowed: self.shadowed,
            frame: self.frame,
            frames: self.frames@,
        }
    }
}

pub open spec fn object_views(v: Seq<ObjectSpriteSpec>) -> Seq<ObjectSpriteView> {
    v.map_values(|s: ObjectSpriteSpec| s@)
}

/// Whether every cached sprite has a non-negative size.
pub open spec fn cache_sizes_ok<H>(cache: Map<(SpriteKind, Entry), crate::resources::CachedSprite<H>>) -> bool {
    forall|k: (SpriteKind, Entry)| #[trigger]
        cache.contains_key(k) ==> cache[k].width >= 0 && cache[k].height >= 0
}

/// The object frame that id `d` of image `g` of entry `eidx` shows on tile
/// `(tx, ty)`: the list has the item, its sprite is cached and its clipped
/// source is not empty. The frame sits at the tile corner moved by the
/// image's destination offset and the clipping correction.
pub open spec fn object_frame_spec<H>(
    rmd: &Rmd,
    list: &ListAsset,
    cache: Map<(SpriteKind, Entry), crate::resources::CachedSprite<H>>,
    eidx: int,
    g: int,
    d: int,
    tx: i32,
    ty: i32,
) -> Option<ObjectFrame> {
    match entry_sprite(rmd, list, eidx, g, d) {
        Some(e) => if cache.contains_key((SpriteKind::Object, e)) {
            let c = cache[(SpriteKind::Object, e)];
            let img = rmd.entries@[eidx].images@[g];
            match crate::systems::clip_spec(
                img.source_x1,
                img.source_y1,
                img.source_x2,
                img.source_y2,
                c.x_off,
                c.y_off,
                c.width,
                c.height,
            ) {
                Some(cl) => Some(
                    ObjectFrame {
                        entry: e,
                        clip: cl,
                        x: (tx * 48 + img.dest_x + cl.x_diff) as i64,
                        y: (-(ty * 24) - img.dest_y - cl.y_diff) as i64,
                    },
                ),
                None => None,
            }
        } else {
            None
        },
        None => None,
    }
}

/// An object frame is drawn where its unclipped sprite would be: its
/// position (y pointing up), moved back by the clipped source corner, is
/// the tile corner `(48 * tx, -24 * ty)` moved by the image's destination
/// offset less the source corner moved by the cached sprite's offset. So
/// columns cut off at the left move the frame right and rows cut off at the
/// top move it down, by as many pixels.
pub proof fn lemma_object_frame_anchored<H>(
    rmd: &Rmd,
    list: &ListAsset,
    cache: Map<(SpriteKind, Entry), crate::resources::CachedSprite<H>>,
    eidx: int,
    g: int,
    d: int,
    tx: i32,
    ty: i32,
)
    requires
        cache_sizes_ok(cache),
    ensures
        object_frame_spec(rmd, list, cache, eidx, g, d, tx, ty) matches Some(f) ==> {
            let img = rmd.entries@[eidx].images@[g];
            let c = cache[(SpriteKind::Object, f.entry)];
            &&& f.x - f.clip.src.min_x == 48 * tx + img.dest_x - (img.source_x1 - c.x_off)
            &&& f.y + f.clip.src.min_y == -24 * ty - img.dest_y + (img.source_y1 - c.y_off)
            &&& f.clip.x_diff >= 0 && f.clip.y_diff >= 0
        },
{
    match entry_sprite(rmd, list, eidx, g, d) {
        Some(e) => {
            if cache.contains_key((SpriteKind::Object, e)) {
                let c = cache[(SpriteKind::Object, e)];
                let img = rmd.entries@[eidx].images@[g];
                crate::systems::lemma_clip_keeps_anchor(
                    img.source_x1,
                    img.source_y1,
                    img.source_x2,
                    img.source_y2,
                    c.x_off,
                    c.y_off,
                    c.width,
                    c.height,
                );
            }
        },
        None => {},
    }
}

pub open spec fn object_frames_upto<H>(
    rmd: &Rmd,
    list: &ListAsset,
    cache: Map<(SpriteKind, Entry), crate::resources::CachedSprite<H>>,
    idxs: Seq<int>,
    g: int,
    d: int,
    tx: i32,
    ty: i32,
    n: nat,
) -> Seq<ObjectFrame>
    decreases n,
{
    if n == 0 {
        Seq::empty()
    } else {
        object_frames_upto(rmd, list, cache, idxs, g, d, tx, ty, (n - 1) as nat) + match object_frame_spec(
            rmd,
            list,
            cache,
            idxs[n - 1],
            g,
            d,
            tx,
            ty,
        ) {
            Some(f) => seq![f],
            None => Seq::empty(),
        }
    }
}

pub open spec fn object_anim_frames<H>(
    rmd: &Rmd,
    list: &ListAsset,
    cache: Map<(SpriteKind, Entry), crate::resources::CachedSprite<H>>,
    idxs: Seq<int>,
    g: int,
    d: int,
    tx: i32,
    ty: i32,
) -> Seq<ObjectFrame> {
    let f = object_frames_upto(rmd, list, cache, idxs, g, d, tx, ty, idxs.len());
    if idxs.len() > 1 && f.len() > 1 {
        f
    } else {
        Seq::empty()
    }
}

/// Whether an image layer is drawn translucent (layers 1 to 3).
pub open spec fn is_shadow_layer(layer: i32) -> bool {
    1 <= layer <= 3
}

pub open spec fn object_sprites_image<H>(
    rmd: &Rmd,
    list: &ListAsset,
    cache: Map<(SpriteKind, Entry), crate::resources::CachedSprite<H>>,
    ti: int,
    idxs: Seq<int>,
    tx: i32,
    ty: i32,
    g: int,
    n: nat,
) -> Seq<ObjectSpriteView>
    decreases n,
{
    if n == 0 {
        Seq::empty()
    } else {
        let img = rmd.entries@[ti].images@[g];
        object_sprites_image(rmd, list, cache, ti, idxs, tx, ty, g, (n - 1) as nat) + match object_frame_spec(
            rmd,
            list,
            cache,
            ti,
            g,
            n - 1,
            tx,
            ty,
        ) {
            Some(f) => seq![
                ObjectSpriteView {
                    tile_x: tx,
                    tile_y: ty,
                    img_idx: g,
                    render_z: img.render_z,
                    z_key: 24 + 24 * ty + g - img.render_z,
                    shadowed: is_shadow_layer(img.empty_2),
                    frame: f,
                    frames: object_anim_frames(rmd, list, cache, idxs, g, n - 1, tx, ty),
                },
            ],
            None => Seq::empty(),
        }
    }
}

pub open spec fn object_sprites_entry<H>(
    rmd: &Rmd,
    list: &ListAsset,
    cache: Map<(SpriteKind, Entry), crate::resources::CachedSprite<H>>,
    ti: int,
    idxs: Seq<int>,
    tx: i32,
    ty: i32,
    n: nat,
) -> Seq<ObjectSpriteView>
    decreases n,
{
    if n == 0 {
        Seq::empty()
    } else {
        object_sprites_entry(rmd, list, cache, ti, idxs, tx, ty, (n - 1) as nat) + object_sprites_image(
            rmd,
            list,
            cache,
            ti,
            idxs,
            tx,
            ty,
            n - 1,
            rmd.entries@[ti].images@[n - 1].image_id@.len(),
        )
    }
}

pub open spec fn object_sprites_of_tile<H>(
    map: &GameMap,
    set: &LoadedRmds,
    list: &ListAsset,
    cache: Map<(SpriteKind, Entry), crate::resources::CachedSprite<H>>,
    t: int,
    tx: i32,
    ty: i32,
) -> Seq<ObjectSpriteView> {
    let e = layer_entry(map.tiles@[t], MapLayer::Object);
    if e.file == 0 {
        Seq::empty()
    } else {
        match set.lookup(e.file) {
            None => Seq::empty(),
            Some(rmd) => if (e.index as int) < rmd.entries@.len() {
                object_sprites_entry(
                    rmd,
                    list,
                    cache,
                    e.index as int,
                    anim_entry_indices_spec(rmd, e.index as int),
                    tx,
                    ty,
                    rmd.entries@[e.index as int].images@.len(),
                )
            } else {
                Seq::empty()
            },
        }
    }
}

/// The object sprites of the first `n` map tiles, in map order (before
/// sorting by depth).
pub open spec fn object_layer_sprites<H>(
    map: &GameMap,
    set: &LoadedRmds,
    list: &ListAsset,
    cache: Map<(SpriteKind, Entry), crate::resources::CachedSprite<H>>,
    stride: int,
    n: nat,
) -> Seq<ObjectSpriteView>
    decreases n,
{
    if n == 0 {
        Seq::empty()
    } else {
        let p = tile_position((n - 1) as nat, stride);
        object_layer_sprites(map, set, list, cache, stride, (n - 1) as nat) + object_sprites_of_tile(
            map,
            set,
            list,
            cache,
            n - 1,
            p.0 as i32,
            p.1 as i32,
        )
    }
}

/// The sprites an object image gives all stand on the image's map tile,
/// are that image, and sort by `24 + 24 * tile_y + img_idx - render_z`: 24
/// times the depth `1 + tile_y + (img_idx - render_z) / 24`, which depends
/// on the row and not on the column.
pub proof fn lemma_object_image_depth<H>(
    rmd: &Rmd,
    list: &ListAsset,
    cache: Map<(SpriteKind, Entry), crate::resources::CachedSprite<H>>,
    ti: int,
    idxs: Seq<int>,
    tx: i32,
    ty: i32,
    g: int,
    n: nat,
)
    ensures
        forall|i: int|
            0 <= i < object_sprites_image(rmd, list, cache, ti, idxs, tx, ty, g, n).len() ==> {
                let v = #[trigger] object_sprites_image(rmd, list, cache, ti, idxs, tx, ty, g, n)[i];
                &&& v.tile_x == tx
                &&& v.tile_y == ty
                &&& v.img_idx == g
                &&& v.render_z == rmd.entries@[ti].images@[g].render_z
                &&& v.z_key == 24 + 24 * v.tile_y + v.img_idx - v.render_z
            },
    decreases n,
{
    if n > 0 {
        lemma_object_image_depth(rmd, list, cache, ti, idxs, tx, ty, g, (n - 1) as nat);
        let prev = object_sprites_image(rmd, list, cache, ti, idxs, tx, ty, g, (n - 1) as nat);
        let all = object_sprites_image(rmd, list, cache, ti, idxs, tx, ty, g, n);
        assert forall|i: int| 0 <= i < prev.len() implies #[trigger] all[i] == prev[i] by {}
    }
}

/// The sprites of an object entry stand on its tile, come from its images,
/// and sort by `24 + 24 * tile_y + img_idx - render_z`.
pub proof fn lemma_object_entry_depth<H>(
    rmd: &Rmd,
    list: &ListAsset,
    cache: Map<(SpriteKind, Entry), crate::resources::CachedSprite<H>>,
    ti: int,
    idxs: Seq<int>,
    tx: i32,
    ty: i32,
    n: nat,
)
    requires
        0 <= ti < rmd.entries@.len(),
        n <= rmd.entries@[ti].images@.len(),
    ensures
        forall|i: int|
            0 <= i < object_sprites_entry(rmd, list, cache, ti, idxs, tx, ty, n).len() ==> {
                let v = #[trigger] object_sprites_entry(rmd, list, cache, ti, idxs, tx, ty, n)[i];
                &&& v.tile_x == tx
                &&& v.tile_y == ty
                &&& 0 <= v.img_idx < n
                &&& v.render_z == rmd.entries@[ti].images@[v.img_idx].render_z
                &&& v.z_key == 24 + 24 * v.tile_y + v.img_idx - v.render_z
            },
    decreases n,
{
    if n > 0 {
        lemma_object_entry_depth(rmd, list, cache, ti, idxs, tx, ty, (n - 1) as nat);
        let len = rmd.entries@[ti].images@[n - 1].image_id@.len();
        lemma_object_image_depth(rmd, list, cache, ti, idxs, tx, ty, n - 1, len);
        let prev = object_sprites_entry(rmd, list, cache, ti, idxs, tx, ty, (n - 1) as nat);
        let img = object_sprites_image(rmd, list, cache, ti, idxs, tx, ty, n - 1, len);
        let all = object_sprites_entry(rmd, list, cache, ti, idxs, tx, ty, n);
        assert(all == prev + img);
        assert forall|i: int| 0 <= i < all.len() implies {
            let v = #[trigger] all[i];
            &&& v.tile_x == tx
            &&& v.tile_y == ty
            &&& 0 <= v.img_idx < n
            &&& v.render_z == rmd.entries@[ti].images@[v.img_idx].render_z
            &&& v.z_key == 24 + 24 * v.tile_y + v.img_idx - v.render_z
        } by {
            if i < prev.len() {
                assert(all[i] == prev[i]);
            } else {
                assert(all[i] == img[i - prev.len()]);
            }
        }
    }
}

/// Every sprite of the object layer sorts by
/// `24 + 24 * tile_y + img_idx - render_z`, whatever its column.
pub proof fn lemma_object_layer_depth<H>(
    map: &GameMap,
    set: &LoadedRmds,
    list: &ListAsset,
    cache: Map<(SpriteKind, Entry), crate::resources::CachedSprite<H>>,
    stride: int,
    n: nat,
)
    ensures
        forall|i: int|
            0 <= i < object_layer_sprites(map, set, list, cache, stride, n).len() ==> {
                let v = #[trigger] object_layer_sprites(map, set, list, cache, stride, n)[i];
                v.z_key == 24 + 24 * v.tile_y + v.img_idx - v.render_z
            },
    decreases n,
{
    if n > 0 {
        lemma_object_layer_depth(map, set, list, cache, stride, (n - 1) as nat);
        let p = tile_position((n - 1) as nat, stride);
        let prev = object_layer_sprites(map, set, list, cache, stride, (n - 1) as nat);
        let tile = object_sprites_of_tile(map, set, list, cache, n - 1, p.0 as i32, p.1 as i32);
        let all = object_layer_sprites(map, set, list, cache, stride, n);
        assert(all == prev + tile);
        let e = layer_entry(map.tiles@[n - 1], MapLayer::Object);
        if e.file != 0 {
            match set.lookup(e.file) {
                None => {},
                Some(rmd) => if (e.index as int) < rmd.entries@.len() {
                    lemma_object_entry_depth(
                        rmd,
                        list,
                        cache,
                        e.index as int,
                        anim_entry_indices_spec(rmd, e.index as int),
                        p.0 as i32,
                        p.1 as i32,
                        rmd.entries@[e.index as int].images@.len(),
                    );
                },
            }
        }
        assert forall|i: int| 0 <= i < all.len() implies {
            let v = #[trigger] all[i];
            v.z_key == 24 + 24 * v.tile_y + v.img_idx - v.render_z
        } by {
            if i < prev.len() {
                assert(all[i] == prev[i]);
            } else {
                assert(all[i] == tile[i - prev.len()]);
            }
        }
    }
}

fn object_frame_at<H>(
    rmd: &Rmd,
    list: &ListAsset,
    cache: &SpriteCache<H>,
    eidx: usize,
    g: usize,
    d: usize,
    tx: i32,
    ty: i32,
) -> (r: Option<ObjectFrame>)
    requires
        cache_sizes_ok(cache@),
    ensures
        r == object_frame_spec(rmd, list, cache@, eidx as int, g as int, d as int, tx, ty),
{
    let entry = match rmd.get_entry(eidx) {
        Some(e) => e,
        None => {
            return None;
        },
    };
    if g >= entry.images.len() {
        return None;
    }
    let img = &entry.images[g];
    if d >= img.image_id.len() {
        return None;
    }
    let item = match list.get_item(img.image_id[d] as usize) {
        Some(i) => i,
        None => {
            return None;
        },
    };
    let cached = match cache.get(SpriteKind::Object, &item.entry) {
        Some(c) => c,
        None => {
            return None;
        },
    };
    match crate::systems::clip_sprite_src(
        img.source_x1,
        img.source_y1,
        img.source_x2,
        img.source_y2,
        cached.x_off,
        cached.y_off,
        cached.width,
        cached.height,
    ) {
        Some(cl) => {
            assert(-0x1_0000_0000 <= cl.x_diff <= 0x1_0000_0000);
            assert(-0x1_0000_0000 <= cl.y_diff <= 0x1_0000_0000);
            let x = tx as i64 * 48 + img.dest_x as i64 + cl.x_diff;
            let y = -(ty as i64 * 24) - img.dest_y as i64 - cl.y_diff;
            Some(ObjectFrame { entry: item.entry, clip: cl, x, y })
        },
        None => None,
    }
}

/// The frames of id `id_idx` of image `img_idx` over every frame entry of
/// `entry_indices`, each at its own position on tile `(tx, ty)`; a frame
/// whose entry, image, id, list item or cached sprite is missing, or whose
/// clipped source is empty, is left out.
pub fn collect_obj_frames<H>(
    entry_indices: &Vec<usize>,
    img_idx: usize,
    id_idx: usize,
    rmd: &Rmd,
    list: &ListAsset,
    cache: &SpriteCache<H>,
    tx: i32,
    ty: i32,
) -> (frames: Vec<ObjectFrame>)
    requires
        cache_sizes_ok(cache@),
    ensures
        frames@ == object_frames_upto(
            rmd,
            list,
            cache@,
            entry_indices@.map_values(|x: usize| x as int),
            img_idx as int,
            id_idx as int,
            tx,
            ty,
            entry_indices@.len(),
        ),
{
    let ghost idxs = entry_indices@.map_values(|x: usize| x as int);
    let mut frames: Vec<ObjectFrame> = Vec::new();
    let mut k: usize = 0;
    while k < entry_indices.len()
        invariant
            cache_sizes_ok(cache@),
            idxs == entry_indices@.map_values(|x: usize| x as int),
            k <= entry_indices@.len(),
            frames@ == object_frames_upto(
                rmd,
                list,
                cache@,
                idxs,
                img_idx as int,
                id_idx as int,
                tx,
                ty,
                k as nat,
            ),
        decreases entry_indices@.len() - k,
    {
        let f = object_frame_at(rmd, list, cache, entry_indices[k], img_idx, id_idx, tx, ty);
        assert(idxs[k as int] == entry_indices@[k as int]);
        match f {
            Some(fr) => {
                frames.push(fr);
            },
            None => {},
        }
        assert(frames@ =~= object_frames_upto(
            rmd,
            list,
            cache@,
            idxs,
            img_idx as int,
            id_idx as int,
            tx,
            ty,
            (k + 1) as nat,
        ));
        k = k + 1;
    }
    frames
}

fn add_object_entry_sprites<H>(
    rmd: &Rmd,
    list: &ListAsset,
    cache: &SpriteCache<H>,
    ti: usize,
    entry_indices: &Vec<usize>,
    tx: i32,
    ty: i32,
    out: &mut Vec<ObjectSpriteSpec>,
)
    requires
        ti < rmd.entries@.len(),
        cache_sizes_ok(cache@),
        0 <= ty < i32::MAX,
    ensures
        object_views(final(out)@) == object_views(old(out)@) + object_sprites_entry(
            rmd,
            list,
            cache@,
            ti as int,
            entry_indices@.map_values(|x: usize| x as int),
            tx,
            ty,
            rmd.entries@[ti as int].images@.len(),
        ),
{
    let ghost idxs = entry_indices@.map_values(|x: usize| x as int);
    let ghost start = object_views(out@);
    let is_animated = entry_indices.len() > 1;
    let images = &rmd.entries[ti].images;
    let mut g: usize = 0;
    while g < images.len()
        invariant
            idxs == entry_indices@.map_values(|x: usize| x as int),
            ti < rmd.entries@.len(),
            cache_sizes_ok(cache@),
            0 <= ty < i32::MAX,
            *images == rmd.entries@[ti as int].images,
            is_animated == (entry_indices@.len() > 1),
            g <= images@.len(),
            object_views(out@) == start + object_sprites_entry(
                rmd,
                list,
                cache@,
                ti as int,
                idxs,
                tx,
                ty,
                g as nat,
            ),
        decreases images@.len() - g,
    {
        let ghost at_image = object_views(out@);
        let img = &images[g];
        let n_ids = img.image_id.len();
        let mut d: usize = 0;
        while d < n_ids
            invariant
                idxs == entry_indices@.map_values(|x: usize| x as int),
                ti < rmd.entries@.len(),
                cache_sizes_ok(cache@),
                0 <= ty < i32::MAX,
                *images == rmd.entries@[ti as int].images,
                is_animated == (entry_indices@.len() > 1),
                g < images@.len(),
                *img == images@[g as int],
                n_ids == images@[g as int].image_id@.len(),
                d <= n_ids,
                object_views(out@) == at_image + object_sprites_image(
                    rmd,
                    list,
                    cache@,
                    ti as int,
                    idxs,
                    tx,
                    ty,
                    g as int,
                    d as nat,
                ),
            decreases n_ids - d,
        {
            match object_frame_at(rmd, list, cache, ti, g, d, tx, ty) {
                Some(f) => {
                    let frames = if is_animated {
                        let fr = collect_obj_frames(entry_indices, g, d, rmd, list, cache, tx, ty);
                        if fr.len() > 1 {
                            fr
                        } else {
                            Vec::new()
                        }
                    } else {
                        Vec::new()
                    };
                    assert(frames@ =~= object_anim_frames(
                        rmd,
                        list,
                        cache@,
                        idxs,
                        g as int,
                        d as int,
                        tx,
                        ty,
                    ));
                    let z_key: i128 = 24 + 24 * (ty as i128) + g as i128 - img.render_z as i128;
                    let shadowed = 1 <= img.empty_2 && img.empty_2 <= 3;
                    let sprite = ObjectSpriteSpec {
                        tile_x: tx,
                        tile_y: ty,
                        img_idx: g,
                        render_z: img.render_z,
                        z_key,
                        shadowed,
                        frame: f,
                        frames,
                    };
                    let ghost old_vec = out@;
                    let ghost sv = sprite@;
                    out.push(sprite);
                    assert(out@ == old_vec.push(sprite));
                    assert(object_views(out@) =~= object_views(old_vec).push(sv));
                },
                None => {},
            }
            assert(object_views(out@) =~= at_image + object_sprites_image(
                rmd,
                list,
                cache@,
                ti as int,
                idxs,
                tx,
                ty,
                g as int,
                (d + 1) as nat,
            ));
            d = d + 1;
        }
        assert(object_views(out@) =~= start + object_sprites_entry(
            rmd,
            list,
            cache@,
            ti as int,
            idxs,
            tx,
            ty,
            (g + 1) as nat,
        ));
        g = g + 1;
    }
}

/// The object layer's sprites of the whole map, tile by tile in map order,
/// before sorting by depth.
pub fn object_layer_draw_list<H>(
    map: &GameMap,
    set: &LoadedRmds,
    list: &ListAsset,
    cache: &SpriteCache<H>,
) -> (v: Vec<ObjectSpriteSpec>)
    requires
        set.wf(),
        layer_anim_fit(map, MapLayer::Object, set),
        map.tiles@.len() < i32::MAX,
        cache_sizes_ok(cache@),
    ensures
        object_views(v@) == object_layer_sprites(
            map,
            set,
            list,
            cache@,
            (map.size_x as i32) as int,
            map.tiles@.len(),
        ),
        forall|i: int|
            0 <= i < v@.len() ==> #[trigger] v@[i].z_key == 24 + 24 * v@[i].tile_y + v@[i].img_idx as int
                - v@[i].render_z,
{
    let stride = map.size_x() as i32;
    let mut out: Vec<ObjectSpriteSpec> = Vec::new();
    let mut tile_x: i32 = 0;
    let mut tile_y: i32 = 0;
    let mut t: usize = 0;
    while t < map.tiles.len()
        invariant
            set.wf(),
            layer_anim_fit(map, MapLayer::Object, set),
            map.tiles@.len() < i32::MAX,
            cache_sizes_ok(cache@),
            stride == (map.size_x as i32),
            t <= map.tiles@.len(),
            (tile_x as int, tile_y as int) == tile_position(t as nat, stride as int),
            object_views(out@) == object_layer_sprites(
                map,
                set,
                list,
                cache@,
                stride as int,
                t as nat,
            ),
        decreases map.tiles@.len() - t,
    {
        proof {
            lemma_tile_position_bounds(t as nat, stride as int);
        }
        let e = map.tiles[t].obj_rmd_entry;
        assert(e == layer_entry(map.tiles@[t as int], MapLayer::Object));
        if e.file != 0 {
            match set.get(e.file) {
                Some(rmd) => {
                    let entry_indices = anim_entry_indices(rmd, e.index as usize);
                    if (e.index as usize) < rmd.entries.len() {
                        add_object_entry_sprites(
                            rmd,
                            list,
                            cache,
                            e.index as usize,
                            &entry_indices,
                            tile_x,
                            tile_y,
                            &mut out,
                        );
                    }
                },
                None => {},
            }
        }
        assert(object_views(out@) =~= object_layer_sprites(
            map,
            set,
            list,
            cache@,
            stride as int,
            (t + 1) as nat,
        ));
        next_tile(&mut tile_x, &mut tile_y, stride);
        t = t + 1;
    }
    proof {
        lemma_object_layer_depth(map, set, list, cache@, stride as int, map.tiles@.len());
        assert forall|i: int| 0 <= i < out@.len() implies #[trigger] out@[i].z_key == 24 + 24
            * out@[i].tile_y + out@[i].img_idx as int - out@[i].render_z by {
            assert(object_views(out@)[i] == out@[i]@);
        }
    }
    out
}


/// Whether sprites are in back-to-front order by depth.
pub open spec fn sorted_by_depth(v: Seq<ObjectSpriteView>) -> bool {
    forall|i: int, j: int| 0 <= i < j < v.len() ==> v[i].z_key <= v[j].z_key
}

/// Puts object sprites in back-to-front order by depth; sprites of equal
/// depth may come in any order.
pub fn sort_by_depth(v: Vec<ObjectSpriteSpec>) -> (r: Vec<ObjectSpriteSpec>)
    ensures
        sorted_by_depth(object_views(r@)),
        object_views(r@).to_multiset() == object_views(v@).to_multiset(),
{
    broadcast use vstd::seq_lib::to_multiset_build, vstd::seq_lib::to_multiset_insert;
    broadcast use vstd::seq_lib::group_to_multiset_ensures;
    broadcast use vstd::multiset::group_multiset_axioms;

    let ghost orig = object_views(v@);
    let mut rest = v;
    let mut r: Vec<ObjectSpriteSpec> = Vec::new();
    assert(object_views(r@) =~= Seq::<ObjectSpriteView>::empty());
    assert(object_views(r@).to_multiset() =~= Multiset::empty());
    while rest.len() > 0
        invariant
            sorted_by_depth(object_views(r@)),
            object_views(r@).to_multiset().add(object_views(rest@).to_multiset())
                == orig.to_multiset(),
        decreases rest@.len(),
    {
        let ghost rest_before = rest@;
        let x = rest.pop().unwrap();
        assert(rest_before == rest@.push(x));
        assert(object_views(rest_before) =~= object_views(rest@).push(x@));
        let mut p: usize = 0;
        while p < r.len() && r[p].z_key <= x.z_key
            invariant
                p <= r@.len(),
                forall|i: int| 0 <= i < p ==> r@[i].z_key <= x.z_key,
            decreases r@.len() - p,
        {
            p = p + 1;
        }
        let ghost r_before = r@;
        r.insert(p, x);
        assert(object_views(r@) =~= object_views(r_before).insert(p as int, x@));
        proof {
            let mr = object_views(r_before).to_multiset();
            let mrest = object_views(rest@).to_multiset();
            vstd::seq_lib::to_multiset_insert(object_views(r_before), p as int, x@);
            vstd::seq_lib::to_multiset_build(object_views(rest@), x@);
            assert(object_views(r@).to_multiset() == mr.insert(x@));
            assert(object_views(rest_before).to_multiset() == mrest.insert(x@));
            assert(mr.insert(x@).add(mrest) =~= mr.add(mrest.insert(x@)));
        }
        proof {
            let rv = object_views(r@);
            let rb = object_views(r_before);
            assert forall|i: int, j: int| 0 <= i < j < rv.len() implies rv[i].z_key <= rv[j].z_key by {
                if p < r_before.len() {
                    assert(r_before[p as int].z_key > x.z_key);
                }
                if i < p && j > p {
                    assert(rb[i].z_key <= x.z_key);
                    assert(rb[j - 1].z_key >= rb[p as int].z_key);
                } else if i < p && j == p {
                } else if i == p && j > p {
                    assert(rb[j - 1].z_key >= rb[p as int].z_key);
                } else if j < p {
                } else {
                    assert(rb[i - 1].z_key <= rb[j - 1].z_key);
                }
            }
        }
    }
    assert(object_views(rest@) =~= Seq::<ObjectSpriteView>::empty());
    assert(object_views(rest@).to_multiset() =~= Multiset::empty());
    r
}


// ── Spawning a map ──────────────────────────────────────────────────────────

/// Everything spawning a map produces: the tile sprites in map order, the
/// object sprites back to front, and the map's collision grid.
pub struct MapSpawnPlan {
    pub tiles: Vec<TileSpriteSpec>,
    pub objects: Vec<ObjectSpriteSpec>,
    pub collision: CollisionGrid,
}

/// What `plan_map_spawn` needs of its inputs.
pub open spec fn spawn_inputs_ok<H>(
    map: &GameMap,
    tile_rmds: &LoadedRmds,
    obj_rmds: &LoadedRmds,
    cache: &SpriteCache<H>,
) -> bool {
    &&& tile_rmds.wf()
    &&& obj_rmds.wf()
    &&& layer_anim_fit(map, MapLayer::Tile, tile_rmds)
    &&& layer_anim_fit(map, MapLayer::Object, obj_rmds)
    &&& map.tiles@.len() < i32::MAX
    &&& cache_sizes_ok(cache@)
    &&& map.size_x * map.size_y * 2 <= usize::MAX
    &&& map.tiles@.len() >= map.size_x * map.size_y
}

/// The spawn plan of a map: both draw lists and the collision grid.
pub fn plan_map_spawn<H>(
    map: &GameMap,
    tile_rmds: &LoadedRmds,
    obj_rmds: &LoadedRmds,
    tile_list: &ListAsset,
    obj_list: &ListAsset,
    cache: &SpriteCache<H>,
) -> (p: MapSpawnPlan)
    requires
        spawn_inputs_ok(map, tile_rmds, obj_rmds, cache),
    ensures
        tile_views(p.tiles@) == tile_layer_sprites(
            map,
            tile_rmds,
            tile_list,
            cache@,
            (map.size_x as i32) as int,
            map.tiles@.len(),
        ),
        sorted_by_depth(object_views(p.objects@)),
        object_views(p.objects@).to_multiset() == object_layer_sprites(
            map,
            obj_rmds,
            obj_list,
            cache@,
            (map.size_x as i32) as int,
            map.tiles@.len(),
        ).to_multiset(),
        p.collision.wf(),
        p.collision.built_from(map),
{
    let tiles = tile_layer_draw_list(map, tile_rmds, tile_list, cache);
    let objects = sort_by_depth(object_layer_draw_list(map, obj_rmds, obj_list, cache));
    let collision = CollisionGrid::build(map);
    MapSpawnPlan { tiles, objects, collision }
}

/// The phases of spawning a map.
#[derive(Clone, Copy, Debug, PartialEq, Eq, Structural)]
pub enum Phase {
    /// Waiting for the map and its list files.
    Init,
    /// Waiting for the data files of both layers.
    WaitingForRmds,
    /// Waiting for the sprite files of both layers.
    WaitingForSprites,
    /// The map is spawned.
    Done,
}

/// Progress of spawning the current map: the phase, the map, the data files
/// requested for both layers, the sprite-file handles held, and how many
/// frames were spent waiting for sprites.
pub struct SpawnState<M, R> {
    pub phase: Phase,
    pub map_id: Option<M>,
    pub tle_rmd_file_nums: HashSet<u32>,
    pub tle_rle_handles: Vec<R>,
    pub obj_rmd_file_nums: HashSet<u32>,
    pub obj_rle_handles: Vec<R>,
    pub frames_waiting: u32,
}

impl<M, R> SpawnState<M, R> {
    /// The state of a map that has not started spawning.
    pub open spec fn is_initial(&self) -> bool {
        &&& self.phase == Phase::Init
        &&& self.map_id is None
        &&& self.tle_rmd_file_nums@ == Set::<u32>::empty()
        &&& self.tle_rle_handles@.len() == 0
        &&& self.obj_rmd_file_nums@ == Set::<u32>::empty()
        &&& self.obj_rle_handles@.len() == 0
        &&& self.frames_waiting == 0
    }

    /// A state that has not started spawning.
    pub fn new() -> (s: SpawnState<M, R>)
        ensures
            s.is_initial(),
    {
        SpawnState {
            phase: Phase::Init,
            map_id: None,
            tle_rmd_file_nums: HashSet::new(),
            tle_rle_handles: Vec::new(),
            obj_rmd_file_nums: HashSet::new(),
            obj_rle_handles: Vec::new(),
            frames_waiting: 0,
        }
    }

    /// Starts over, as for a map that has not started spawning.
    pub fn reset(&mut self)
        ensures
            final(self).is_initial(),
    {
        *self = Self::new();
    }

    /// Leaves `Init` once the map and its list files are there: records the
    /// map and the distinct data files each layer refers to, which are then
    /// to be requested, and waits for them.
    pub fn begin(&mut self, map_id: M, map: &GameMap)
        requires
            old(self).phase == Phase::Init,
        ensures
            final(self).phase == Phase::WaitingForRmds,
            final(self).map_id == Some(map_id),
            forall|y: u32| #[trigger]
                final(self).tle_rmd_file_nums@.contains(y) <==> y != 0 && exists|t: int|
                    0 <= t < map.tiles@.len() && #[trigger] layer_entry(
                        map.tiles@[t],
                        MapLayer::Tile,
                    ).file == y,
            forall|y: u32| #[trigger]
                final(self).obj_rmd_file_nums@.contains(y) <==> y != 0 && exists|t: int|
                    0 <= t < map.tiles@.len() && #[trigger] layer_entry(
                        map.tiles@[t],
                        MapLayer::Object,
                    ).file == y,
            final(self).tle_rle_handles@ == old(self).tle_rle_handles@,
            final(self).obj_rle_handles@ == old(self).obj_rle_handles@,
            final(self).frames_waiting == old(self).frames_waiting,
    {
        self.tle_rmd_file_nums = layer_rmd_files(map, MapLayer::Tile);
        self.obj_rmd_file_nums = layer_rmd_files(map, MapLayer::Object);
        self.map_id = Some(map_id);
        self.phase = Phase::WaitingForRmds;
    }

    /// Once every requested data file of both layers is loaded, gives the
    /// distinct sprite files each layer draws, over every animation frame,
    /// and waits for them; before that gives `None` and changes nothing.
    pub fn rle_requests(
        &mut self,
        map: &GameMap,
        tile_rmds: &LoadedRmds,
        obj_rmds: &LoadedRmds,
        tile_list: &ListAsset,
        obj_list: &ListAsset,
    ) -> (r: Option<(HashSet<u32>, HashSet<u32>)>)
        requires
            old(self).phase == Phase::WaitingForRmds,
            tile_rmds.wf(),
            obj_rmds.wf(),
            layer_anim_fit(map, MapLayer::Tile, tile_rmds),
            layer_anim_fit(map, MapLayer::Object, obj_rmds),
        ensures
            ({
                let ready = (forall|y: u32| #[trigger]
                    old(self).tle_rmd_file_nums@.contains(y) ==> tile_rmds.lookup(y) is Some) && (
                forall|y: u32| #[trigger] old(self).obj_rmd_file_nums@.contains(y) ==> obj_rmds.lookup(y) is Some);
                &&& ready <==> r is Some
                &&& !ready ==> final(self).phase == Phase::WaitingForRmds
                &&& ready ==> final(self).phase == Phase::WaitingForSprites
            }),
            r matches Some((t, o)) ==> {
                &&& forall|y: u32| #[trigger]
                    t@.contains(y) <==> exists|i: int|
                        0 <= i < map.tiles@.len() && tile_uses_file(
                            map,
                            MapLayer::Tile,
                            tile_rmds,
                            tile_list,
                            i,
                            y,
                        )
                &&& forall|y: u32| #[trigger]
                    o@.contains(y) <==> exists|i: int|
                        0 <= i < map.tiles@.len() && tile_uses_file(
                            map,
                            MapLayer::Object,
                            obj_rmds,
                            obj_list,
                            i,
                            y,
                        )
            },
            final(self).map_id == old(self).map_id,
            final(self).tle_rmd_file_nums@ == old(self).tle_rmd_file_nums@,
            final(self).obj_rmd_file_nums@ == old(self).obj_rmd_file_nums@,
            final(self).tle_rle_handles@ == old(self).tle_rle_handles@,
            final(self).obj_rle_handles@ == old(self).obj_rle_handles@,
            final(self).frames_waiting == old(self).frames_waiting,
    {
        let tle_ready = rmds_loaded(&self.tle_rmd_file_nums, tile_rmds);
        let obj_ready = rmds_loaded(&self.obj_rmd_file_nums, obj_rmds);
        if !tle_ready || !obj_ready {
            return None;
        }
        let t = layer_rle_files(map, MapLayer::Tile, tile_rmds, tile_list);
        let o = layer_rle_files(map, MapLayer::Object, obj_rmds, obj_list);
        self.phase = Phase::WaitingForSprites;
        Some((t, o))
    }

    /// Keeps the handles of the requested sprite files.
    pub fn set_rle_handles(&mut self, tle: Vec<R>, obj: Vec<R>)
        ensures
            final(self).tle_rle_handles@ == tle@,
            final(self).obj_rle_handles@ == obj@,
            final(self).phase == old(self).phase,
            final(self).map_id == old(self).map_id,
            final(self).tle_rmd_file_nums@ == old(self).tle_rmd_file_nums@,
            final(self).obj_rmd_file_nums@ == old(self).obj_rmd_file_nums@,
            final(self).frames_waiting == old(self).frames_waiting,
    {
        self.tle_rle_handles = tle;
        self.obj_rle_handles = obj;
    }

    /// Spawns the map once everything both layers draw is cached, or, after
    /// 300 frames of waiting, with whatever is cached: gives the spawn plan
    /// and is done. Otherwise counts one more frame of waiting and gives
    /// `None`.
    pub fn try_spawn<H>(
        &mut self,
        map: &GameMap,
        tile_rmds: &LoadedRmds,
        obj_rmds: &LoadedRmds,
        tile_list: &ListAsset,
        obj_list: &ListAsset,
        cache: &SpriteCache<H>,
    ) -> (r: Option<MapSpawnPlan>)
        requires
            old(self).phase == Phase::WaitingForSprites,
            old(self).frames_waiting < u32::MAX,
            spawn_inputs_ok(map, tile_rmds, obj_rmds, cache),
        ensures
            ({
                let ready = forall|t: int|
                    0 <= t < map.tiles@.len() ==> #[trigger] tile_ready(
                        map,
                        MapLayer::Tile,
                        tile_rmds,
                        tile_list,
                        cache@,
                        t,
                    ) && tile_ready(map, MapLayer::Object, obj_rmds, obj_list, cache@, t);
                &&& ready ==> final(self).frames_waiting == old(self).frames_waiting
                &&& !ready ==> final(self).frames_waiting == old(self).frames_waiting + 1
                &&& (r is Some <==> (ready || final(self).frames_waiting
                    >= SPRITE_LOAD_TIMEOUT_FRAMES))
            }),
            r is Some ==> final(self).phase == Phase::Done,
            r is None ==> final(self).phase == Phase::WaitingForSprites,
            r matches Some(p) ==> {
                &&& tile_views(p.tiles@) == tile_layer_sprites(
                    map,
                    tile_rmds,
                    tile_list,
                    cache@,
                    (map.size_x as i32) as int,
                    map.tiles@.len(),
                )
                &&& sorted_by_depth(object_views(p.objects@))
                &&& object_views(p.objects@).to_multiset() == object_layer_sprites(
                    map,
                    obj_rmds,
                    obj_list,
                    cache@,
                    (map.size_x as i32) as int,
                    map.tiles@.len(),
                ).to_multiset()
                &&& p.collision.wf()
                &&& p.collision.built_from(map)
            },
            final(self).map_id == old(self).map_id,
            final(self).tle_rmd_file_nums@ == old(self).tle_rmd_file_nums@,
            final(self).obj_rmd_file_nums@ == old(self).obj_rmd_file_nums@,
            final(self).tle_rle_handles@ == old(self).tle_rle_handles@,
            final(self).obj_rle_handles@ == old(self).obj_rle_handles@,
    {
        let ready = all_sprites_ready(map, tile_rmds, obj_rmds, tile_list, obj_list, cache);
        if !ready {
            self.frames_waiting = self.frames_waiting + 1;
            if self.frames_waiting < SPRITE_LOAD_TIMEOUT_FRAMES {
                return None;
            }
        }
        let plan = plan_map_spawn(map, tile_rmds, obj_rmds, tile_list, obj_list, cache);
        self.phase = Phase::Done;
        Some(plan)
    }
}


// ── Map changes and animation ───────────────────────────────────────────────

pub open spec fn prev_map_spec(current: usize) -> usize {
    if current > 0 {
        (current - 1) as usize
    } else {
        0
    }
}

pub open spec fn next_map_spec(current: usize) -> usize {
    if current + 1 < MAX_MAP {
        (current + 1) as usize
    } else {
        MAX_MAP
    }
}

/// The map before `current` (0 stays 0).
pub fn prev_map(current: usize) -> (m: usize)
    ensures
        m == prev_map_spec(current),
{
    current.saturating_sub(1)
}

/// The map after `current`, at most the last map.
pub fn next_map(current: usize) -> (m: usize)
    requires
        current < usize::MAX,
    ensures
        m == next_map_spec(current),
{
    let n = current + 1;
    if n < MAX_MAP {
        n
    } else {
        MAX_MAP
    }
}

/// Stepping through maps stays within the map range and one step back
/// undoes one step forward: for a map below the last, the previous map of
/// its next map is itself; for a map above the first, the next map of its
/// previous map is itself.
pub proof fn lemma_map_steps(m: usize)
    requires
        m < usize::MAX,
    ensures
        next_map_spec(m) <= MAX_MAP,
        m <= MAX_MAP ==> prev_map_spec(m) <= MAX_MAP,
        m < MAX_MAP ==> prev_map_spec(next_map_spec(m)) == m,
        0 < m <= MAX_MAP ==> next_map_spec(prev_map_spec(m)) == m,
{
}

/// The map-change requests of one frame of the map keys: the previous map
/// when "previous" was pressed, then the next map when "next" was pressed.
pub fn map_cycle_input(prev_pressed: bool, next_pressed: bool, current_map: usize) -> (r: Vec<usize>)
    requires
        current_map < usize::MAX,
    ensures
        r@ == (if prev_pressed {
            seq![prev_map_spec(current_map)]
        } else {
            Seq::empty()
        }) + (if next_pressed {
            seq![next_map_spec(current_map)]
        } else {
            Seq::empty()
        }),
{
    let mut r: Vec<usize> = Vec::new();
    if prev_pressed {
        r.push(prev_map(current_map));
    }
    if next_pressed {
        r.push(next_map(current_map));
    }
    assert(r@ =~= (if prev_pressed {
        seq![prev_map_spec(current_map)]
    } else {
        Seq::empty()
    }) + (if next_pressed {
        seq![next_map_spec(current_map)]
    } else {
        Seq::empty()
    }));
    r
}

/// The map-change requests of the map buttons of the debug panel: the
/// previous map when "previous" was clicked on a map above the first, then
/// the next map when "next" was clicked on a map below the last.
pub fn map_buttons(prev_clicked: bool, next_clicked: bool, current_map: usize) -> (r: Vec<usize>)
    ensures
        r@ == (if prev_clicked && current_map > 0 {
            seq![prev_map_spec(current_map)]
        } else {
            Seq::empty()
        }) + (if next_clicked && current_map < MAX_MAP {
            seq![next_map_spec(current_map)]
        } else {
            Seq::empty()
        }),
{
    let mut r: Vec<usize> = Vec::new();
    if prev_clicked && current_map > 0 {
        r.push(prev_map(current_map));
    }
    if next_clicked && current_map < MAX_MAP {
        r.push(next_map(current_map));
    }
    assert(r@ =~= (if prev_clicked && current_map > 0 {
        seq![prev_map_spec(current_map)]
    } else {
        Seq::empty()
    }) + (if next_clicked && current_map < MAX_MAP {
        seq![next_map_spec(current_map)]
    } else {
        Seq::empty()
    }));
    r
}

/// Switches to the map of the last change request of the frame, if any:
/// its handle comes from the map index (loaded through `load` the first
/// time), it becomes the current map, spawning starts over and the
/// collision grid is emptied. Gives the map number and its handle; without
/// a request nothing changes.
pub fn change_map<'a, M, R, H, F: FnOnce(String) -> H>(
    events: &Vec<usize>,
    map_index: &'a mut MapIndex<H>,
    spawn_state: &mut SpawnState<M, R>,
    collision_grid: &mut CollisionGrid,
    current_map: &mut usize,
    load: F,
) -> (r: Option<(usize, &'a H)>)
    requires
        forall|p: String| call_requires(load, (p,)),
    ensures
        events@.len() == 0 ==> r is None,
        events@.len() == 0 ==> final(map_index)@ == old(map_index)@,
        events@.len() == 0 ==> *final(current_map) == *old(current_map),
        events@.len() == 0 ==> *final(spawn_state) == *old(spawn_state),
        events@.len() == 0 ==> *final(collision_grid) == *old(collision_grid),
        events@.len() > 0 ==> {
            let n = events@.last();
            &&& r matches Some((m, h)) && m == n && final(map_index)@.contains_key(n) && *h == final(map_index)@[n]
            &&& *final(current_map) == n
            &&& final(spawn_state).is_initial()
            &&& final(collision_grid).wf()
            &&& final(collision_grid).width == 0
            &&& final(collision_grid).height == 0
            &&& final(collision_grid).blocked@.len() == 0
            &&& old(map_index)@.contains_key(n) ==> final(map_index)@ == old(map_index)@
            &&& !old(map_index)@.contains_key(n) ==> exists|p: String, v: H|
                p@ == "data/DATAs/Map/Map"@ + zero_padded(n as nat, 5) + ".rmm"@ && call_ensures(
                    load,
                    (p,),
                    v,
                ) && final(map_index)@ == old(map_index)@.insert(n, v)
        },
{
    if events.len() == 0 {
        return None;
    }
    let n = events[events.len() - 1];
    let h = map_index.load_or_get(n, load);
    *current_map = n;
    spawn_state.reset();
    *collision_grid = CollisionGrid::new();
    Some((n, h))
}

/// The frame after `frame_idx` of a looping animation of `len` frames.
pub fn next_anim_frame(frame_idx: usize, len: usize) -> (n: usize)
    requires
        len > 0,
        frame_idx < usize::MAX,
    ensures
        n == (frame_idx + 1) % (len as int),
        n < len,
{
    (frame_idx + 1) % len
}

} // verus!
