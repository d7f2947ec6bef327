//! Caches keyed by asset identity: data-file handles by (kind, file number),
//! map handles by map number, and decoded sprites by (kind, entry).
use vstd::prelude::*;
use std::collections::HashMap;
use crate::asset_loader::{RleAsset, RleSprite, SpriteKind};
use crate::entity::Entry;
use crate::map_spawn::cache_sizes_ok;
use crate::paths::map_asset_path;
use crate::text::zero_padded;

verus! {

broadcast use vstd::std_specs::hash::group_hash_axioms;

/// The number of a sprite kind used in cache keys.
pub open spec fn kind_code(kind: SpriteKind) -> int {
    match kind {
        SpriteKind::Bullet => 0,
        SpriteKind::Icon => 1,
        SpriteKind::Character => 2,
        SpriteKind::Object => 3,
        SpriteKind::Tile => 4,
        SpriteKind::Interface => 5,
    }
}

pub open spec fn data_key_spec(kind: SpriteKind, file: u32) -> u64 {
    (kind_code(kind) * 0x1_0000_0000 + file) as u64
}

pub open spec fn sprite_key_spec(kind: SpriteKind, entry: Entry) -> u128 {
    (kind_code(kind) * 0x1_0000_0000_0000_0000 + entry.file * 0x1_0000_0000 + entry.index) as u128
}

fn kind_number(kind: SpriteKind) -> (c: u64)
    ensures
        c == kind_code(kind),
{
    match kind {
        SpriteKind::Bullet => 0,
        SpriteKind::Icon => 1,
        SpriteKind::Character => 2,
        SpriteKind::Object => 3,
        SpriteKind::Tile => 4,
        SpriteKind::Interface => 5,
    }
}

/// The key of a data file: `(kind, file)` packed into one integer.
pub fn data_key(kind: SpriteKind, file: u32) -> (k: u64)
    ensures
        k == data_key_spec(kind, file),
{
    kind_number(kind) * 0x1_0000_0000 + file as u64
}

/// The key of a sprite: `(kind, file, index)` packed into one integer.
pub fn sprite_key(kind: SpriteKind, entry: Entry) -> (k: u128)
    ensures
        k == sprite_key_spec(kind, entry),
{
    kind_number(kind) as u128 * 0x1_0000_0000_0000_0000 + entry.file as u128 * 0x1_0000_0000
        + entry.index as u128
}

/// Different data files have different keys.
pub proof fn lemma_data_key_injective(k1: SpriteKind, f1: u32, k2: SpriteKind, f2: u32)
    ensures
        data_key_spec(k1, f1) == data_key_spec(k2, f2) ==> k1 == k2 && f1 == f2,
{
}

/// Different sprites have different keys.
pub proof fn lemma_sprite_key_injective(k1: SpriteKind, e1: Entry, k2: SpriteKind, e2: Entry)
    ensures
        sprite_key_spec(k1, e1) == sprite_key_spec(k2, e2) ==> k1 == k2 && e1 == e2,
{
}

/// Handles of loaded data files, by sprite kind and file number.
pub struct DataCache<H> {
    handles: HashMap<u64, H>,
}

impl<H> View for DataCache<H> {
    type V = Map<(SpriteKind, u32), H>;

    closed spec fn view(&self) -> Map<(SpriteKind, u32), H> {
        Map::new(
            |k: (SpriteKind, u32)| self.handles@.contains_key(data_key_spec(k.0, k.1)),
            |k: (SpriteKind, u32)| self.handles@[data_key_spec(k.0, k.1)],
        )
    }
}

impl<H> DataCache<H> {
    /// An empty cache.
    pub fn new() -> (c: DataCache<H>)
        ensures
            c@ == Map::<(SpriteKind, u32), H>::empty(),
    {
        let c = DataCache { handles: HashMap::new() };
        assert(c@ =~= Map::<(SpriteKind, u32), H>::empty());
        c
    }

    /// Records the handle of data file `file_num` of a kind, replacing any
    /// earlier one.
    pub fn insert(&mut self, kind: SpriteKind, file_num: u32, handle: H)
        ensures
            final(self)@ == old(self)@.insert((kind, file_num), handle),
    {
        let key = data_key(kind, file_num);
        self.handles.insert(key, handle);
        proof {
            assert forall|k: (SpriteKind, u32)| #[trigger]
                final(self)@.contains_key(k) == old(self)@.insert(
                    (kind, file_num),
                    handle,
                ).contains_key(k) by {
                lemma_data_key_injective(k.0, k.1, kind, file_num);
            }
            assert forall|k: (SpriteKind, u32)| #[trigger]
                final(self)@.contains_key(k) implies final(self)@[k] == old(self)@.insert(
                    (kind, file_num),
                    handle,
                )[k] by {
                lemma_data_key_injective(k.0, k.1, kind, file_num);
            }
            assert(final(self)@ =~= old(self)@.insert((kind, file_num), handle));
        }
    }

    /// The handle of data file `file_num` of a kind, if one was recorded.
    pub fn get(&self, kind: SpriteKind, file_num: u32) -> (h: Option<&H>)
        ensures
            match h {
                Some(v) => self@.contains_key((kind, file_num)) && *v == self@[(kind, file_num)],
                None => !self@.contains_key((kind, file_num)),
            },
    {
        let key = data_key(kind, file_num);
        self.handles.get(&key)
    }
}

/// What the caches give back of a write: after `insert` records `v` under
/// a key (as `DataCache::insert`, `SpriteCache::insert` and
/// `SpriteManager::insert_sprite` do to their views), `get` of that key gives
/// `v`, and every other key gives what it gave before.
pub proof fn lemma_read_after_write<K, V>(m: Map<K, V>, k: K, v: V, other: K)
    ensures
        m.insert(k, v).contains_key(k),
        m.insert(k, v)[k] == v,
        other != k ==> m.insert(k, v).contains_key(other) == m.contains_key(other),
        other != k && m.contains_key(other) ==> m.insert(k, v)[other] == m[other],
{
}

/// Map handles by map number.
pub struct MapIndex<H> {
    pub by_number: HashMap<usize, H>,
}

impl<H> View for MapIndex<H> {
    type V = Map<usize, H>;

    open spec fn view(&self) -> Map<usize, H> {
        self.by_number@
    }
}

impl<H> MapIndex<H> {
    /// An empty index.
    pub fn new() -> (m: MapIndex<H>)
        ensures
            m@ == Map::<usize, H>::empty(),
    {
        MapIndex { by_number: HashMap::new() }
    }

    /// The handle of map `number`: the recorded one, or, the first time, the
    /// one `load` gives for the map's path `data/DATAs/Map/Map{number:05}.rmm`,
    /// which is then recorded.
    pub fn load_or_get<F: FnOnce(String) -> H>(&mut self, number: usize, load: F) -> (h: &H)
        requires
            forall|p: String| call_requires(load, (p,)),
        ensures
            old(self)@.contains_key(number) ==> final(self)@ == old(self)@ && *h == old(self)@[number],
            !old(self)@.contains_key(number) ==> exists|p: String, v: H|
                p@ == "data/DATAs/Map/Map"@ + zero_padded(number as nat, 5) + ".rmm"@
                    && call_ensures(load, (p,), v) && final(self)@ == old(self)@.insert(number, v)
                    && *h == v,
    {
        if self.by_number.contains_key(&number) {
            return self.by_number.get(&number).unwrap();
        }
        let path = map_asset_path(number);
        let ghost p = path;
        let handle = load(path);
        self.by_number.insert(number, handle);
        let h = self.by_number.get(&number).unwrap();
        assert(p@ == "data/DATAs/Map/Map"@ + zero_padded(number as nat, 5) + ".rmm"@);
        h
    }

    /// A copy of the handle of map `number`, if one was recorded.
    pub fn handle(&self, number: usize) -> (h: Option<H>)
        where
            H: Clone,
        ensures
            match h {
                Some(v) => self@.contains_key(number) && cloned::<H>(self@[number], v),
                None => !self@.contains_key(number),
            },
    {
        match self.by_number.get(&number) {
            Some(v) => Some(v.clone()),
            None => None,
        }
    }
}

/// A decoded sprite ready to draw: its image handle, drawing offset and size.
pub struct CachedSprite<H> {
    pub handle: H,
    pub x_off: i32,
    pub y_off: i32,
    pub width: i32,
    pub height: i32,
}

/// Decoded sprites by sprite kind and entry.
pub struct SpriteCache<H> {
    cache: HashMap<u128, CachedSprite<H>>,
    /// False once a sprite with a negative width or height was recorded.
    sizes_ok: bool,
}

/// The cache contents that the keyed store `m` holds.
pub open spec fn cache_view<H>(m: Map<u128, CachedSprite<H>>) -> Map<(SpriteKind, Entry), CachedSprite<H>> {
    Map::new(
        |k: (SpriteKind, Entry)| m.contains_key(sprite_key_spec(k.0, k.1)),
        |k: (SpriteKind, Entry)| m[sprite_key_spec(k.0, k.1)],
    )
}

/// The sprite-cache key of sprite `i` of a loaded sprite file.
pub open spec fn rle_entry(rle: &RleAsset, i: int) -> Entry {
    Entry { file: rle.file_num, index: rle.sprites@[i].index }
}

pub open spec fn sprite_has_image(s: RleSprite) -> bool {
    s.width > 0 && s.height > 0
}

/// Whether populating from `rle` caches sprite `i`: it has an image, its
/// entry was not cached before, and no earlier sprite with an image has
/// the same index.
pub open spec fn populates<H>(
    before: Map<(SpriteKind, Entry), CachedSprite<H>>,
    rle: &RleAsset,
    i: int,
) -> bool {
    &&& sprite_has_image(rle.sprites@[i])
    &&& !before.contains_key((rle.kind, rle_entry(rle, i)))
    &&& forall|j: int|
        0 <= j < i ==> !(sprite_has_image(#[trigger] rle.sprites@[j]) && rle.sprites@[j].index
            == rle.sprites@[i].index)
}

impl<H> View for SpriteCache<H> {
    type V = Map<(SpriteKind, Entry), CachedSprite<H>>;

    closed spec fn view(&self) -> Map<(SpriteKind, Entry), CachedSprite<H>> {
        cache_view(self.cache@)
    }
}

impl<H> SpriteCache<H> {
    /// While no sprite with a negative size was recorded, every recorded
    /// sprite has a non-negative size.
    #[verifier::type_invariant]
    spec fn sizes_tracked(self) -> bool {
        self.sizes_ok ==> cache_sizes_ok(cache_view(self.cache@))
    }

    /// Whether no sprite with a negative width or height was ever recorded.
    pub closed spec fn no_negative_size_recorded(&self) -> bool {
        self.sizes_ok
    }

    /// An empty cache.
    pub fn new() -> (c: SpriteCache<H>)
        ensures
            c@ == Map::<(SpriteKind, Entry), CachedSprite<H>>::empty(),
            c.no_negative_size_recorded(),
    {
        let m: HashMap<u128, CachedSprite<H>> = HashMap::new();
        assert(cache_view(m@) =~= Map::<(SpriteKind, Entry), CachedSprite<H>>::empty());
        SpriteCache { cache: m, sizes_ok: true }
    }

    /// Records a sprite, replacing any earlier one under the same key.
    pub fn insert(&mut self, kind: SpriteKind, entry: Entry, sprite: CachedSprite<H>)
        ensures
            final(self)@ == old(self)@.insert((kind, entry), sprite),
            final(self).no_negative_size_recorded() == (old(self).no_negative_size_recorded()
                && sprite.width >= 0 && sprite.height >= 0),
    {
        proof {
            use_type_invariant(&*self);
        }
        let key = sprite_key(kind, entry);
        let fits = sprite.width >= 0 && sprite.height >= 0;
        let ghost before = cache_view(self.cache@);
        let mut m: HashMap<u128, CachedSprite<H>> = HashMap::new();
        assert(cache_view(m@) =~= Map::<(SpriteKind, Entry), CachedSprite<H>>::empty());
        std::mem::swap(&mut m, &mut self.cache);
        m.insert(key, sprite);
        proof {
            let after = cache_view(m@);
            assert forall|k: (SpriteKind, Entry)| #[trigger]
                after.contains_key(k) == before.insert((kind, entry), sprite).contains_key(k) by {
                lemma_sprite_key_injective(k.0, k.1, kind, entry);
            }
            assert forall|k: (SpriteKind, Entry)| #[trigger]
                after.contains_key(k) implies after[k] == before.insert((kind, entry), sprite)[k] by {
                lemma_sprite_key_injective(k.0, k.1, kind, entry);
            }
            assert(after =~= before.insert((kind, entry), sprite));
        }
        self.sizes_ok = self.sizes_ok && fits;
        self.cache = m;
    }

    /// Whether every recorded sprite is known to have a non-negative width
    /// and height: true as long as no sprite with a negative size was ever
    /// recorded.
    pub fn sizes_ok(&self) -> (b: bool)
        ensures
            b == self.no_negative_size_recorded(),
            b ==> cache_sizes_ok(self@),
    {
        proof {
            use_type_invariant(self);
        }
        self.sizes_ok
    }

    /// The sprite recorded under `(kind, entry)`, if any.
    pub fn get(&self, kind: SpriteKind, entry: &Entry) -> (s: Option<&CachedSprite<H>>)
        ensures
            match s {
                Some(v) => self@.contains_key((kind, *entry)) && *v == self@[(kind, *entry)],
                None => !self@.contains_key((kind, *entry)),
            },
    {
        let key = sprite_key(kind, *entry);
        self.cache.get(&key)
    }

    /// Whether a sprite is recorded under `(kind, entry)`.
    pub fn contains(&self, kind: SpriteKind, entry: &Entry) -> (b: bool)
        ensures
            b == self@.contains_key((kind, *entry)),
    {
        let key = sprite_key(kind, *entry);
        self.cache.contains_key(&key)
    }

    /// Caches the sprites of a newly loaded sprite file: each sprite whose
    /// entry is not cached yet and that has an image gets the handle that
    /// `make_handle` gives for it; cached entries are never replaced.
    pub fn populate<F: Fn(&RleSprite) -> H>(&mut self, rle: &RleAsset, make_handle: F)
        requires
            forall|i: int| 0 <= i < rle.sprites@.len() ==> call_requires(make_handle, (&rle.sprites@[i],)),
        ensures
            forall|k: (SpriteKind, Entry)| #[trigger]
                old(self)@.contains_key(k) ==> final(self)@.contains_key(k) && final(self)@[k]
                    == old(self)@[k],
            forall|k: (SpriteKind, Entry)| #[trigger]
                final(self)@.contains_key(k) ==> old(self)@.contains_key(k) || exists|i: int|
                    0 <= i < rle.sprites@.len() && populates(old(self)@, rle, i) && k == (
                    rle.kind,
                    rle_entry(rle, i),
                ),
            forall|i: int|
                0 <= i < rle.sprites@.len() && #[trigger] populates(old(self)@, rle, i) ==> {
                    let c = final(self)@[(rle.kind, rle_entry(rle, i))];
                    &&& final(self)@.contains_key((rle.kind, rle_entry(rle, i)))
                    &&& call_ensures(make_handle, (&rle.sprites@[i],), c.handle)
                    &&& c.x_off == rle.sprites@[i].x_off
                    &&& c.y_off == rle.sprites@[i].y_off
                    &&& c.width == rle.sprites@[i].width
                    &&& c.height == rle.sprites@[i].height
                },
            forall|i: int|
                0 <= i < rle.sprites@.len() && sprite_has_image(#[trigger] rle.sprites@[i])
                    ==> final(self)@.contains_key((rle.kind, rle_entry(rle, i))),
            final(self).no_negative_size_recorded() == old(self).no_negative_size_recorded(),
    {
        let ghost before = self@;
        let ghost flag = self.no_negative_size_recorded();
        let n = rle.sprites.len();
        let mut i: usize = 0;
        while i < n
            invariant
                n == rle.sprites@.len(),
                i <= n,
                self.no_negative_size_recorded() == flag,
                forall|j: int| 0 <= j < n ==> call_requires(make_handle, (&rle.sprites@[j],)),
                forall|k: (SpriteKind, Entry)| #[trigger]
                    before.contains_key(k) ==> self@.contains_key(k) && self@[k] == before[k],
                forall|k: (SpriteKind, Entry)| #[trigger]
                    self@.contains_key(k) ==> before.contains_key(k) || exists|j: int|
                        0 <= j < i && populates(before, rle, j) && k == (rle.kind, rle_entry(rle, j)),
                forall|j: int|
                    0 <= j < i && #[trigger] populates(before, rle, j) ==> {
                        let c = self@[(rle.kind, rle_entry(rle, j))];
                        &&& self@.contains_key((rle.kind, rle_entry(rle, j)))
                        &&& call_ensures(make_handle, (&rle.sprites@[j],), c.handle)
                        &&& c.x_off == rle.sprites@[j].x_off
                        &&& c.y_off == rle.sprites@[j].y_off
                        &&& c.width == rle.sprites@[j].width
                        &&& c.height == rle.sprites@[j].height
                    },
                forall|j: int|
                    0 <= j < i && sprite_has_image(#[trigger] rle.sprites@[j])
                        ==> self@.contains_key((rle.kind, rle_entry(rle, j))),
            decreases n - i,
        {
            let sprite = &rle.sprites[i];
            let entry = Entry::new(rle.file_num, sprite.index);
            assert(entry == rle_entry(rle, i as int));
            if self.contains(rle.kind, &entry) {
                proof {
                    assert(!populates(before, rle, i as int)) by {
                        if !before.contains_key((rle.kind, entry)) {
                            let j = choose|j: int|
                                0 <= j < i && populates(before, rle, j) && (rle.kind, entry) == (
                                    rle.kind,
                                    rle_entry(rle, j),
                                );
                            assert(sprite_has_image(rle.sprites@[j]));
                        }
                    }
                }
                i = i + 1;
                continue;
            }
            if sprite.width > 0 && sprite.height > 0 {
                proof {
                    assert forall|j: int|
                        0 <= j < i implies !(sprite_has_image(#[trigger] rle.sprites@[j])
                        && rle.sprites@[j].index == rle.sprites@[i as int].index) by {
                        if sprite_has_image(rle.sprites@[j]) && rle.sprites@[j].index
                            == rle.sprites@[i as int].index {
                            assert(rle_entry(rle, j) == entry);
                        }
                    }
                    assert(populates(before, rle, i as int));
                }
                let handle = make_handle(sprite);
                let cached = CachedSprite {
                    handle,
                    x_off: sprite.x_off,
                    y_off: sprite.y_off,
                    width: sprite.width,
                    height: sprite.height,
                };
                let ghost mid = self@;
                self.insert(rle.kind, entry, cached);
                proof {
                    assert forall|j: int|
                        0 <= j < i && #[trigger] populates(before, rle, j) implies rle_entry(rle, j)
                        != entry by {
                        if rle_entry(rle, j) == entry {
                            assert(sprite_has_image(rle.sprites@[j]));
                        }
                    }
                }
            } else {
                proof {
                    assert(!populates(before, rle, i as int));
                }
            }
            i = i + 1;
        }
    }
}

} // verus!
