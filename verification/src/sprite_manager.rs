//! The classic client's sprite store: loaded sprites by kind and entry,
//! loading a sprite file on the first request of one of its sprites.
use vstd::prelude::*;
use std::collections::HashMap;
use crate::asset_loader::{RleResource, SpriteKind};
use crate::entity::Entry;

verus! {

broadcast use vstd::std_specs::hash::group_hash_axioms;

/// The key of an entry within one kind: file and index packed together.
pub open spec fn entry_key_spec(e: Entry) -> u64 {
    (e.file * 0x1_0000_0000 + e.index) as u64
}

fn entry_key(e: Entry) -> (k: u64)
    ensures
        k == entry_key_spec(e),
{
    e.file as u64 * 0x1_0000_0000 + e.index as u64
}

proof fn lemma_entry_key_injective(a: Entry, b: Entry)
    ensures
        entry_key_spec(a) == entry_key_spec(b) ==> a == b,
{
}

/// A decoded sprite: its kind, entry, size, drawing offset and pixels.
pub struct SpriteData {
    pub class: SpriteKind,
    pub rle_entry: Entry,
    pub x_dim: i32,
    pub y_dim: i32,
    pub x_off: i32,
    pub y_off: i32,
    pub image_raw: Vec<u8>,
}

/// The sprite of resource `r` of sprite file `number` of a kind.
pub fn sprite_from_resource(number: u32, kind: SpriteKind, r: RleResource) -> (s: SpriteData)
    ensures
        s.class == kind,
        s.rle_entry == (Entry { file: number, index: r.index }),
        s.x_dim == r.width,
        s.y_dim == r.height,
        s.x_off == r.offset_x,
        s.y_off == r.offset_y,
        s.image_raw@ == r.image_raw@,
{
    SpriteData {
        class: kind,
        rle_entry: Entry::new(number, r.index),
        x_dim: r.width,
        y_dim: r.height,
        x_off: r.offset_x,
        y_off: r.offset_y,
        image_raw: r.image_raw,
    }
}

/// The byte length of one row of RGBA pixels of a sprite `width` wide.
pub fn texture_pitch(width: i32) -> (p: usize)
    requires
        width >= 0,
        width * 4 <= usize::MAX,
    ensures
        p == width * 4,
{
    width as usize * 4
}

/// Why a sprite could not be had: loading its file failed, or the file did
/// not hold it.
pub enum SpriteLoadError<E> {
    Load(E),
    SpriteLoad,
}

/// Loaded sprites of every kind, by entry.
pub struct SpriteManager<T> {
    db_path: String,
    bul_map: HashMap<u64, T>,
    ico_map: HashMap<u64, T>,
    chr_map: HashMap<u64, T>,
    obj_map: HashMap<u64, T>,
    tle_map: HashMap<u64, T>,
    int_map: HashMap<u64, T>,
}

/// The store after recording the loaded sprites `items` (index and value)
/// of file `file` in order; a later index replaces an earlier one.
pub open spec fn record_loaded<T>(
    m: Map<(SpriteKind, Entry), T>,
    kind: SpriteKind,
    file: u32,
    items: Seq<(u32, T)>,
) -> Map<(SpriteKind, Entry), T>
    decreases items.len(),
{
    if items.len() == 0 {
        m
    } else {
        record_loaded(m, kind, file, items.drop_last()).insert(
            (kind, Entry { file, index: items.last().0 }),
            items.last().1,
        )
    }
}

impl<T> SpriteManager<T> {
    pub closed spec fn kind_map(&self, kind: SpriteKind) -> Map<u64, T> {
        match kind {
            SpriteKind::Bullet => self.bul_map@,
            SpriteKind::Icon => self.ico_map@,
            SpriteKind::Character => self.chr_map@,
            SpriteKind::Object => self.obj_map@,
            SpriteKind::Tile => self.tle_map@,
            SpriteKind::Interface => self.int_map@,
        }
    }

    /// The loaded sprites of a kind, by entry.
    pub closed spec fn sprites(&self) -> Map<(SpriteKind, Entry), T> {
        Map::new(
            |k: (SpriteKind, Entry)| self.kind_map(k.0).contains_key(entry_key_spec(k.1)),
            |k: (SpriteKind, Entry)| self.kind_map(k.0)[entry_key_spec(k.1)],
        )
    }

    /// How many sprites of a kind are loaded.
    pub closed spec fn count(&self, kind: SpriteKind) -> nat {
        self.kind_map(kind).len()
    }

    pub closed spec fn spec_db_path(&self) -> Seq<char> {
        self.db_path@
    }

    /// An empty store of the sprite files under `db_path`.
    pub fn new(db_path: &str) -> (m: SpriteManager<T>)
        ensures
            m.sprites() == Map::<(SpriteKind, Entry), T>::empty(),
            m.spec_db_path() == db_path@,
            m.count(SpriteKind::Bullet) == 0 && m.count(SpriteKind::Icon) == 0 && m.count(
                SpriteKind::Character,
            ) == 0 && m.count(SpriteKind::Object) == 0 && m.count(SpriteKind::Tile) == 0 && m.count(
                SpriteKind::Interface,
            ) == 0,
    {
        let m = SpriteManager {
            db_path: db_path.to_owned(),
            bul_map: HashMap::new(),
            ico_map: HashMap::new(),
            chr_map: HashMap::new(),
            obj_map: HashMap::new(),
            tle_map: HashMap::new(),
            int_map: HashMap::new(),
        };
        assert(m.sprites() =~= Map::<(SpriteKind, Entry), T>::empty());
        assert(m.bul_map@.dom() =~= Set::<u64>::empty());
        assert(m.ico_map@.dom() =~= Set::<u64>::empty());
        assert(m.chr_map@.dom() =~= Set::<u64>::empty());
        assert(m.obj_map@.dom() =~= Set::<u64>::empty());
        assert(m.tle_map@.dom() =~= Set::<u64>::empty());
        assert(m.int_map@.dom() =~= Set::<u64>::empty());
        m
    }

    /// The root folder of the sprite files.
    pub fn db_path(&self) -> (p: &str)
        ensures
            p@ == self.spec_db_path(),
    {
        self.db_path.as_str()
    }

    /// The number of loaded sprites of all kinds.
    pub fn get_count(&self) -> (n: usize)
        requires
            self.count(SpriteKind::Bullet) + self.count(SpriteKind::Icon) + self.count(
                SpriteKind::Character,
            ) + self.count(SpriteKind::Object) + self.count(SpriteKind::Tile) + self.count(
                SpriteKind::Interface,
            ) <= usize::MAX,
        ensures
            n == self.count(SpriteKind::Bullet) + self.count(SpriteKind::Icon) + self.count(
                SpriteKind::Character,
            ) + self.count(SpriteKind::Object) + self.count(SpriteKind::Tile) + self.count(
                SpriteKind::Interface,
            ),
    {
        self.bul_map.len() + self.ico_map.len() + self.chr_map.len() + self.obj_map.len()
            + self.tle_map.len() + self.int_map.len()
    }

    /// The loaded sprite of an entry of a kind, if any.
    pub fn req_sprite(&self, entry: &Entry, kind: SpriteKind) -> (s: Option<&T>)
        ensures
            match s {
                Some(v) => self.sprites().contains_key((kind, *entry)) && *v == self.sprites()[(
                    kind,
                    *entry,
                )],
                None => !self.sprites().contains_key((kind, *entry)),
            },
    {
        let key = entry_key(*entry);
        match kind {
            SpriteKind::Bullet => self.bul_map.get(&key),
            SpriteKind::Icon => self.ico_map.get(&key),
            SpriteKind::Character => self.chr_map.get(&key),
            SpriteKind::Object => self.obj_map.get(&key),
            SpriteKind::Tile => self.tle_map.get(&key),
            SpriteKind::Interface => self.int_map.get(&key),
        }
    }

    /// Records a loaded sprite, replacing any earlier one of the entry.
    pub fn insert_sprite(&mut self, entry: Entry, kind: SpriteKind, value: T)
        ensures
            final(self).sprites() == old(self).sprites().insert((kind, entry), value),
            final(self).spec_db_path() == old(self).spec_db_path(),
    {
        let key = entry_key(entry);
        match kind {
            SpriteKind::Bullet => {
                self.bul_map.insert(key, value);
            },
            SpriteKind::Icon => {
                self.ico_map.insert(key, value);
            },
            SpriteKind::Character => {
                self.chr_map.insert(key, value);
            },
            SpriteKind::Object => {
                self.obj_map.insert(key, value);
            },
            SpriteKind::Tile => {
                self.tle_map.insert(key, value);
            },
            SpriteKind::Interface => {
                self.int_map.insert(key, value);
            },
        }
        proof {
            assert forall|k: (SpriteKind, Entry)| #[trigger]
                final(self).sprites().contains_key(k) == old(self).sprites().insert(
                    (kind, entry),
                    value,
                ).contains_key(k) by {
                lemma_entry_key_injective(k.1, entry);
            }
            assert forall|k: (SpriteKind, Entry)| #[trigger]
                final(self).sprites().contains_key(k) implies final(self).sprites()[k] == old(self).sprites().insert((kind, entry), value)[k] by {
                lemma_entry_key_injective(k.1, entry);
            }
            assert(final(self).sprites() =~= old(self).sprites().insert((kind, entry), value));
        }
    }

    /// Records the sprites loaded from file `file`, in order.
    pub fn record_file(&mut self, kind: SpriteKind, file: u32, items: Vec<(u32, T)>)
        ensures
            final(self).sprites() == record_loaded(old(self).sprites(), kind, file, items@),
            final(self).spec_db_path() == old(self).spec_db_path(),
    {
        let ghost orig = items@;
        let ghost start = self.sprites();
        let mut rest = items;
        let mut done: usize = 0;
        assert(orig.subrange(0, 0) =~= Seq::<(u32, T)>::empty());
        assert(orig.len() == rest.len());
        while rest.len() > 0
            invariant
                done + rest@.len() == orig.len(),
                orig.len() <= usize::MAX,
                rest@ =~= orig.subrange(done as int, orig.len() as int),
                self.sprites() == record_loaded(start, kind, file, orig.subrange(0, done as int)),
                self.spec_db_path() == old(self).spec_db_path(),
            decreases rest@.len(),
        {
            let (index, value) = rest.remove(0);
            assert(orig[done as int] == (index, value));
            self.insert_sprite(Entry::new(file, index), kind, value);
            assert(orig.subrange(0, done + 1).drop_last() =~= orig.subrange(0, done as int));
            done = done + 1;
        }
        assert(orig.subrange(0, done as int) =~= orig);
    }

    /// The sprite of an entry of a kind. When it is not loaded, its sprite
    /// file is loaded first: `load` gives the file's sprites (index and
    /// value), which are recorded, and the error that ended loading, if one
    /// did. Fails with that error, or when the file did not hold the sprite.
    pub fn get_sprite_entry<E, F: FnOnce(u32, SpriteKind) -> (Vec<(u32, T)>, Option<E>)>(
        &mut self,
        req_entry: &Entry,
        sprite_type: SpriteKind,
        load: F,
    ) -> (r: Result<&T, SpriteLoadError<E>>)
        requires
            call_requires(load, (req_entry.file, sprite_type)),
        ensures
            old(self).sprites().contains_key((sprite_type, *req_entry)) ==> final(self).sprites()
                == old(self).sprites(),
            old(self).sprites().contains_key((sprite_type, *req_entry)) ==> (r matches Ok(v) && *v
                == old(self).sprites()[(sprite_type, *req_entry)]),
            !old(self).sprites().contains_key((sprite_type, *req_entry)) ==> exists|
                items: Vec<(u32, T)>,
                err: Option<E>,
            |
                #![trigger call_ensures(load, (req_entry.file, sprite_type), (items, err))]
                call_ensures(load, (req_entry.file, sprite_type), (items, err)) && final(self).sprites() == record_loaded(
                    old(self).sprites(),
                    sprite_type,
                    req_entry.file,
                    items@,
                ) && match r {
                    Ok(v) => err is None && final(self).sprites().contains_key(
                        (sprite_type, *req_entry),
                    ) && *v == final(self).sprites()[(sprite_type, *req_entry)],
                    Err(SpriteLoadError::Load(e)) => err == Some(e),
                    Err(SpriteLoadError::SpriteLoad) => err is None && !final(self).sprites().contains_key((sprite_type, *req_entry)),
                },
            final(self).spec_db_path() == old(self).spec_db_path(),
    {
        if self.req_sprite(req_entry, sprite_type).is_none() {
            let (items, err) = load(req_entry.file(), sprite_type);
            let ghost it = items;
            let ghost er = err;
            self.record_file(sprite_type, req_entry.file(), items);
            match err {
                Some(e) => {
                    return Err(SpriteLoadError::Load(e));
                },
                None => {},
            }
            match self.req_sprite(req_entry, sprite_type) {
                Some(v) => Ok(v),
                None => Err(SpriteLoadError::SpriteLoad),
            }
        } else {
            match self.req_sprite(req_entry, sprite_type) {
                Some(v) => Ok(v),
                None => Err(SpriteLoadError::SpriteLoad),
            }
        }
    }
}

/// Recording loaded sprites keeps every key that was there.
proof fn lemma_record_loaded_keeps<T>(
    m: Map<(SpriteKind, Entry), T>,
    kind: SpriteKind,
    file: u32,
    items: Seq<(u32, T)>,
    k: (SpriteKind, Entry),
)
    requires
        m.contains_key(k),
    ensures
        record_loaded(m, kind, file, items).contains_key(k),
    decreases items.len(),
{
    if items.len() > 0 {
        lemma_record_loaded_keeps(m, kind, file, items.drop_last(), k);
    }
}

/// Whether the sprites of the first `n` requests are all loaded.
pub open spec fn requests_cached<T>(m: Map<(SpriteKind, Entry), T>, requests: Seq<(Entry, SpriteKind)>, n: int) -> bool {
    forall|j: int| 0 <= j < n ==> m.contains_key((#[trigger] requests[j].1, requests[j].0))
}

/// Whether fetching stopped at request `i`: the store held `m` then, which
/// kept every sprite the store held at the `start`, had the sprites of the
/// requests before `i` and lacked that of request `i`; `load` was called for
/// request `i`'s file and kind and gave `items` and `err`, and the store
/// ended as `m` with `items` recorded.
pub open spec fn fetch_failed_at<T, E, F: Fn(u32, SpriteKind) -> (Vec<(u32, T)>, Option<E>)>(
    load: F,
    start: Map<(SpriteKind, Entry), T>,
    end: Map<(SpriteKind, Entry), T>,
    requests: Seq<(Entry, SpriteKind)>,
    i: int,
    m: Map<(SpriteKind, Entry), T>,
    items: Vec<(u32, T)>,
    err: Option<E>,
) -> bool {
    &&& 0 <= i < requests.len()
    &&& forall|k: (SpriteKind, Entry)| #[trigger] start.contains_key(k) ==> m.contains_key(k)
    &&& requests_cached(m, requests, i)
    &&& !m.contains_key((requests[i].1, requests[i].0))
    &&& call_ensures(load, (requests[i].0.file, requests[i].1), (items, err))
    &&& end == record_loaded(m, requests[i].1, requests[i].0.file, items@)
}

/// Fetches the sprites of `requests` in order through `get_sprite_entry`,
/// loading sprite files with `load`, and stops at the first failure. `Ok`
/// when every requested sprite is then loaded, and at once, with nothing
/// loaded, when all of them already are; otherwise the error of the first
/// failing request, with every request before it loaded: the error `load`
/// reported for that request's file, or `SpriteLoad` when the file did not
/// hold the sprite.
pub fn load_map_sprites<T, E, F: Fn(u32, SpriteKind) -> (Vec<(u32, T)>, Option<E>)>(
    mgr: &mut SpriteManager<T>,
    requests: &Vec<(Entry, SpriteKind)>,
    load: F,
) -> (r: Result<(), SpriteLoadError<E>>)
    requires
        forall|f: u32, k: SpriteKind| call_requires(load, (f, k)),
    ensures
        r is Ok ==> requests_cached(final(mgr).sprites(), requests@, requests@.len() as int),
        requests_cached(old(mgr).sprites(), requests@, requests@.len() as int) ==> r is Ok
            && final(mgr).sprites() == old(mgr).sprites(),
        r matches Err(SpriteLoadError::Load(e)) ==> exists|
            i: int,
            m: Map<(SpriteKind, Entry), T>,
            items: Vec<(u32, T)>,
        |
            #[trigger] fetch_failed_at(
                load,
                old(mgr).sprites(),
                final(mgr).sprites(),
                requests@,
                i,
                m,
                items,
                Some(e),
            ),
        r matches Err(SpriteLoadError::SpriteLoad) ==> exists|
            i: int,
            m: Map<(SpriteKind, Entry), T>,
            items: Vec<(u32, T)>,
        |
            #[trigger] fetch_failed_at(load, old(mgr).sprites(), final(mgr).sprites(), requests@, i, m, items, None)
                && !final(mgr).sprites().contains_key((requests@[i].1, requests@[i].0)),
        r is Err ==> exists|i: int| 0 <= i < requests@.len() && #[trigger] requests_cached(final(mgr).sprites(), requests@, i),
        final(mgr).spec_db_path() == old(mgr).spec_db_path(),
        forall|k: (SpriteKind, Entry)| #[trigger] old(mgr).sprites().contains_key(k) ==> final(mgr).sprites().contains_key(k),
{
    let ghost start = mgr.sprites();
    let ghost all_cached = requests_cached(start, requests@, requests@.len() as int);
    let mut i: usize = 0;
    while i < requests.len()
        invariant
            i <= requests@.len(),
            forall|f: u32, k: SpriteKind| call_requires(load, (f, k)),
            start == old(mgr).sprites(),
            all_cached == requests_cached(start, requests@, requests@.len() as int),
            requests_cached(mgr.sprites(), requests@, i as int),
            all_cached ==> mgr.sprites() == start,
            mgr.spec_db_path() == old(mgr).spec_db_path(),
            forall|k: (SpriteKind, Entry)| #[trigger] start.contains_key(k) ==> mgr.sprites().contains_key(k),
        decreases requests@.len() - i,
    {
        let (entry, kind) = requests[i];
        assert(requests@[i as int] == (entry, kind));
        let ghost before = mgr.sprites();
        let fetch = |f: u32, k: SpriteKind| -> (res: (Vec<(u32, T)>, Option<E>))
            requires
                call_requires(load, (f, k)),
            ensures
                call_ensures(load, (f, k), res),
        { load(f, k) };
        let got = mgr.get_sprite_entry(&entry, kind, fetch);
        let failure = match got {
            Ok(_) => None,
            Err(e) => Some(e),
        };
        proof {
            if all_cached {
                assert(start.contains_key((requests@[i as int].1, requests@[i as int].0)));
            }
            assert forall|k: (SpriteKind, Entry)| before.contains_key(k) implies mgr.sprites().contains_key(k) by {
                if !before.contains_key((kind, entry)) {
                    let (items, err) = choose|items: Vec<(u32, T)>, err: Option<E>|
                        #![trigger call_ensures(fetch, (entry.file, kind), (items, err))]
                        call_ensures(fetch, (entry.file, kind), (items, err)) && mgr.sprites()
                            == record_loaded(before, kind, entry.file, items@);
                    lemma_record_loaded_keeps(before, kind, entry.file, items@, k);
                }
            }
        }
        match failure {
            Some(e) => {
                proof {
                    let (items, err) = choose|items: Vec<(u32, T)>, err: Option<E>|
                        #![trigger call_ensures(fetch, (entry.file, kind), (items, err))]
                        call_ensures(fetch, (entry.file, kind), (items, err)) && mgr.sprites()
                            == record_loaded(before, kind, entry.file, items@) && match got {
                            Ok(v) => err is None && mgr.sprites().contains_key((kind, entry)) && *v
                                == mgr.sprites()[(kind, entry)],
                            Err(SpriteLoadError::Load(e)) => err == Some(e),
                            Err(SpriteLoadError::SpriteLoad) => err is None && !mgr.sprites().contains_key(
                                (kind, entry),
                            ),
                        };
                    assert(call_ensures(load, (entry.file, kind), (items, err)));
                    assert(fetch_failed_at(load, start, mgr.sprites(), requests@, i as int, before, items, err));
                    assert(requests_cached(mgr.sprites(), requests@, i as int)) by {
                        assert forall|j: int| 0 <= j < i implies mgr.sprites().contains_key(
                            (#[trigger] requests@[j].1, requests@[j].0),
                        ) by {
                            assert(before.contains_key((requests@[j].1, requests@[j].0)));
                        }
                    }
                }
                return Err(e);
            },
            None => {},
        }
        i = i + 1;
    }
    Ok(())
}

} // verus!
