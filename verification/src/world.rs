//! The tile state of the map: which tiles are loaded (with their images),
//! which are being fetched, at which zoom level the map is, and from which
//! tile server tiles come.
use vstd::prelude::*;
use std::collections::BTreeMap;
use std::collections::BTreeSet;
use vstd::std_specs::iter::IteratorSpec;
use crate::coords::{
    TileCoordinate, TileKey, TileWindow, TILE_SIZE, view_window, tiles_per_side,
    tile_count,
};
use crate::order::{keys_well_ordered, lemma_key_order, lemma_increasing_key_refs, strictly_increasing, key_lt};
use crate::url::{tile_url, tile_url_chars};

verus! {

broadcast use vstd::std_specs::btree::group_btree_axioms;

/// The tile server used when none is configured.
pub const DEFAULT_OSM_TILES_URL: &'static str = "https://tile.openstreetmap.org";

/// The zoom level a new map starts at.
pub const INITIAL_ZOOM: u32 = 1;

/// A tile to fetch, and the address to fetch it from.
pub struct TileRequest {
    pub coord: TileCoordinate,
    pub url: String,
}

/// What a change of view asks of the fetching side: tiles to fetch, and
/// fetches to abandon.
pub struct ViewUpdate {
    pub requests: Vec<TileRequest>,
    pub cancelled: Vec<TileCoordinate>,
}

/// Where a loaded tile is drawn: the pixel position of its top-left corner.
#[derive(Clone, Copy, Debug, PartialEq, Eq, Structural)]
pub struct TilePlacement {
    pub coord: TileCoordinate,
    pub x: i64,
    pub y: i64,
}

/// The keys of a sequence of tile coordinates.
pub open spec fn coord_keys(s: Seq<TileCoordinate>) -> Seq<TileKey> {
    s.map_values(|c: TileCoordinate| c@)
}

/// The keys of a sequence of tile requests.
pub open spec fn request_keys(s: Seq<TileRequest>) -> Seq<TileKey> {
    s.map_values(|r: TileRequest| r.coord@)
}

/// The keys of a sequence of placements.
pub open spec fn placement_keys(s: Seq<TilePlacement>) -> Seq<TileKey> {
    s.map_values(|p: TilePlacement| p.coord@)
}

/// The loaded tiles that a window keeps.
pub open spec fn kept_loaded<I>(loaded: Map<TileKey, I>, w: TileWindow) -> Map<TileKey, I> {
    loaded.restrict(loaded.dom().filter(|k: TileKey| w.keeps(k)))
}

/// The tiles being fetched that a window keeps.
pub open spec fn kept_loading(loading: Set<TileKey>, w: TileWindow) -> Set<TileKey> {
    loading.filter(|k: TileKey| w.keeps(k))
}

/// The tiles of a window that are neither loaded nor being fetched.
pub open spec fn missing<I>(w: TileWindow, loaded: Map<TileKey, I>, loading: Set<TileKey>) -> Set<TileKey> {
    Set::new(|k: TileKey| w.contains(k) && !loaded.contains_key(k) && !loading.contains(k))
}

/// The missing tiles of a window that come before column `x`, row `y` in
/// the order in which the window is walked (column by column, each column
/// from its top row).
pub open spec fn missing_before<I>(
    w: TileWindow,
    loaded: Map<TileKey, I>,
    loading: Set<TileKey>,
    x: int,
    y: int,
) -> Set<TileKey> {
    Set::new(
        |k: TileKey|
            w.contains(k) && (k.1 < x || (k.1 == x && k.2 < y)) && !loaded.contains_key(k)
                && !loading.contains(k),
    )
}

/// A pixel coordinate of a tile edge: the tile index times `TILE_SIZE`.
pub open spec fn pixel_of(index: i64) -> int {
    index * TILE_SIZE
}

/// The pixel coordinate of a tile edge fits in an `i64`.
pub open spec fn pixel_fits(index: i64) -> bool {
    i64::MIN <= pixel_of(index) <= i64::MAX
}

/// The keys of a tile set in increasing order.
fn set_keys_in_order(s: &BTreeSet<TileKey>) -> (v: Vec<TileKey>)
    ensures
        v@.to_set() == s@,
        v@.no_duplicates(),
        strictly_increasing(v@),
{
    proof { lemma_key_order(); }
    let mut v: Vec<TileKey> = Vec::new();
    for k in it: s.iter()
        invariant
            v@ == it.seq().take(it.index() as int).map_values(|r: &TileKey| *r),
            it.seq() == vstd::std_specs::btree::spec_btree_keys_iter(s).remaining(),
    {
        v.push(*k);
    }
    let ghost r = vstd::std_specs::btree::spec_btree_keys_iter(s).remaining();
    assert(v@ =~= r.unref());
    proof { lemma_increasing_key_refs(r); }
    v
}

/// The keys of a tile map in increasing order.
fn map_keys_in_order<I>(m: &BTreeMap<TileKey, I>) -> (v: Vec<TileKey>)
    ensures
        v@.to_set() == m@.dom(),
        v@.no_duplicates(),
        strictly_increasing(v@),
{
    proof { lemma_key_order(); }
    let mut v: Vec<TileKey> = Vec::new();
    for k in it: m.keys()
        invariant
            v@ == it.seq().take(it.index() as int).map_values(|r: &TileKey| *r),
            it.seq() == vstd::std_specs::btree::spec_keys_iter(m).remaining(),
    {
        v.push(*k);
    }
    let ghost r = vstd::std_specs::btree::spec_keys_iter(m).remaining();
    assert(v@ =~= r.unref());
    proof { lemma_increasing_key_refs(r); }
    v
}

/// The tiles of the map, with tile images of type `I`.
pub struct World<I> {
    loaded_tiles: BTreeMap<TileKey, I>,
    loading_tiles: BTreeSet<TileKey>,
    osm_url: String,
    zoom_level: u32,
}

impl<I> World<I> {
    /// The loaded tiles and their images.
    pub closed spec fn tiles_loaded(&self) -> Map<TileKey, I> {
        self.loaded_tiles@
    }

    /// The tiles being fetched.
    pub closed spec fn tiles_loading(&self) -> Set<TileKey> {
        self.loading_tiles@
    }

    /// The current zoom level.
    pub closed spec fn zoom(&self) -> u32 {
        self.zoom_level
    }

    /// The address of the tile server.
    pub closed spec fn tile_server(&self) -> Seq<char> {
        self.osm_url@
    }

    /// A tile is never loaded and being fetched at once, and finitely many
    /// tiles are loaded.
    pub open spec fn wf(&self) -> bool {
        &&& self.tiles_loaded().dom().disjoint(self.tiles_loading())
        &&& self.tiles_loaded().dom().finite()
    }

    /// A map at `INITIAL_ZOOM` with no tiles, fetching from the server that
    /// is configured, or from `DEFAULT_OSM_TILES_URL` when none is.
    pub fn new(configured_url: Option<String>) -> (w: World<I>)
        ensures
            w.wf(),
            w.tiles_loaded() == Map::<TileKey, I>::empty(),
            w.tiles_loading() == Set::<TileKey>::empty(),
            w.zoom() == INITIAL_ZOOM,
            w.tile_server() == match configured_url {
                Some(u) => u@,
                None => DEFAULT_OSM_TILES_URL@,
            },
    {
        let osm_url = match configured_url {
            Some(u) => u,
            None => DEFAULT_OSM_TILES_URL.to_owned(),
        };
        World {
            loaded_tiles: BTreeMap::new(),
            loading_tiles: BTreeSet::new(),
            osm_url,
            zoom_level: INITIAL_ZOOM,
        }
    }

    pub fn zoom_level(&self) -> (z: u32)
        ensures
            z == self.zoom(),
    {
        self.zoom_level
    }

    pub fn osm_url(&self) -> (u: &str)
        ensures
            u@ == self.tile_server(),
    {
        self.osm_url.as_str()
    }

    pub fn is_loaded(&self, coord: &TileCoordinate) -> (b: bool)
        ensures
            b == self.tiles_loaded().contains_key(coord@),
    {
        proof { lemma_key_order(); }
        self.loaded_tiles.contains_key(&coord.key())
    }

    pub fn is_loading(&self, coord: &TileCoordinate) -> (b: bool)
        ensures
            b == self.tiles_loading().contains(coord@),
    {
        proof { lemma_key_order(); }
        self.loading_tiles.contains(&coord.key())
    }

    /// The image of a loaded tile.
    pub fn loaded_image(&self, coord: &TileCoordinate) -> (img: Option<&I>)
        ensures
            match img {
                Some(i) => self.tiles_loaded().contains_key(coord@) && *i == self.tiles_loaded()[coord@],
                None => !self.tiles_loaded().contains_key(coord@),
            },
    {
        proof { lemma_key_order(); }
        self.loaded_tiles.get(&coord.key())
    }

    /// No tile is being fetched.
    pub fn is_idle(&self) -> (b: bool)
        ensures
            b == (self.tiles_loading() == Set::<TileKey>::empty()),
    {
        proof { lemma_key_order(); }
        let b = self.loading_tiles.is_empty();
        proof {
            if !b {
                let k = choose|k: TileKey| self.loading_tiles@.contains(k);
                assert(!Set::<TileKey>::empty().contains(k));
            } else {
                assert(self.loading_tiles@ =~= Set::<TileKey>::empty());
            }
        }
        b
    }

    /// Moves the map to another zoom level. When the level changes, every
    /// loaded tile is dropped and the change of level is returned (new
    /// minus old), by which the caller scales its view offsets with
    /// `2^change` before it resets the view. At the same level nothing changes.
    pub fn set_zoom_level(&mut self, zoom_level: u32) -> (change: Option<i64>)
        requires
            old(self).wf(),
        ensures
            final(self).wf(),
            final(self).zoom() == zoom_level,
            final(self).tile_server() == old(self).tile_server(),
            final(self).tiles_loading() == old(self).tiles_loading(),
            old(self).zoom() == zoom_level ==> {
                &&& change is None
                &&& final(self).tiles_loaded() == old(self).tiles_loaded()
            },
            old(self).zoom() != zoom_level ==> {
                &&& change == Some((zoom_level - old(self).zoom()) as i64)
                &&& final(self).tiles_loaded() == Map::<TileKey, I>::empty()
            },
    {
        if self.zoom_level != zoom_level {
            self.loaded_tiles.clear();
            let change = zoom_level as i64 - self.zoom_level as i64;
            self.zoom_level = zoom_level;
            Some(change)
        } else {
            None
        }
    }

    /// A fetch has finished with `image`. A tile that was being fetched
    /// becomes loaded with that image, and `true` is returned (the shown
    /// tiles changed). For a tile not being fetched (its fetch was abandoned)
    /// nothing changes and `false` is returned.
    pub fn tile_loaded(&mut self, coord: TileCoordinate, image: I) -> (changed: bool)
        requires
            old(self).wf(),
        ensures
            final(self).wf(),
            final(self).zoom() == old(self).zoom(),
            final(self).tile_server() == old(self).tile_server(),
            changed == old(self).tiles_loading().contains(coord@),
            changed ==> {
                &&& final(self).tiles_loading() == old(self).tiles_loading().remove(coord@)
                &&& final(self).tiles_loaded() == old(self).tiles_loaded().insert(coord@, image)
            },
            !changed ==> {
                &&& final(self).tiles_loading() == old(self).tiles_loading()
                &&& final(self).tiles_loaded() == old(self).tiles_loaded()
            },
    {
        proof { lemma_key_order(); }
        let k = coord.key();
        if self.loading_tiles.remove(&k) {
            self.loaded_tiles.insert(k, image);
            true
        } else {
            false
        }
    }

    /// Drops the fetches of tiles that `w` does not keep, returning them in
    /// increasing order.
    fn drop_unkept_loading(&mut self, w: &TileWindow) -> (cancelled: Vec<TileCoordinate>)
        ensures
            final(self).tiles_loading() == kept_loading(old(self).tiles_loading(), *w),
            final(self).tiles_loaded() == old(self).tiles_loaded(),
            final(self).zoom() == old(self).zoom(),
            final(self).tile_server() == old(self).tile_server(),
            coord_keys(cancelled@).to_set() == old(self).tiles_loading().filter(|k: TileKey| !w.keeps(k)),
            strictly_increasing(coord_keys(cancelled@)),
    {
        proof { lemma_key_order(); }
        let keys = set_keys_in_order(&self.loading_tiles);
        let ghost s0 = self.loading_tiles@;
        let mut cancelled: Vec<TileCoordinate> = Vec::new();
        let mut i: usize = 0;
        while i < keys.len()
            invariant
                keys_well_ordered(),
                0 <= i <= keys@.len(),
                keys@.to_set() == s0,
                strictly_increasing(keys@),
                self.loaded_tiles@ == old(self).loaded_tiles@,
                self.zoom_level == old(self).zoom_level,
                self.osm_url@ == old(self).osm_url@,
                self.loading_tiles@ == s0.filter(|x: TileKey| !coord_keys(cancelled@).contains(x)),
                forall|j: int| 0 <= j < cancelled@.len() ==> s0.contains(#[trigger] cancelled@[j]@) && !w.keeps(cancelled@[j]@),
                forall|j: int| 0 <= j < i && !w.keeps(#[trigger] keys@[j]) ==> coord_keys(cancelled@).contains(keys@[j]),
                forall|j: int, m: int| 0 <= j < cancelled@.len() && i <= m < keys@.len() ==> key_lt(#[trigger] cancelled@[j]@, #[trigger] keys@[m]),
                strictly_increasing(coord_keys(cancelled@)),
            decreases keys@.len() - i,
        {
            let k = keys[i];
            let ghost before = cancelled@;
            if !w.keeps_key(k) {
                self.loading_tiles.remove(&k);
                cancelled.push(TileCoordinate::from_key(k));
                proof {
                    broadcast use vstd::seq_lib::group_seq_properties;
                    assert(coord_keys(cancelled@) =~= coord_keys(before).push(k));
                    assert(keys@.to_set().contains(k));
                    assert(self.loading_tiles@ =~= s0.filter(|x: TileKey| !coord_keys(cancelled@).contains(x)));
                    assert forall|j: int| 0 <= j < cancelled@.len() implies s0.contains(#[trigger] cancelled@[j]@) && !w.keeps(cancelled@[j]@) by {
                        if j < before.len() {
                            assert(cancelled@[j] == before[j]);
                        }
                    }
                }
            }
            proof {
                assert forall|j: int| 0 <= j < i + 1 && !w.keeps(#[trigger] keys@[j]) implies coord_keys(cancelled@).contains(keys@[j]) by {
                    if j < i {
                        let q = coord_keys(before).index_of(keys@[j]);
                        assert(coord_keys(cancelled@)[q] == keys@[j]);
                    } else {
                        assert(coord_keys(cancelled@)[cancelled@.len() - 1] == keys@[j]);
                    }
                }
                assert forall|j: int, m: int| 0 <= j < cancelled@.len() && i + 1 <= m < keys@.len() implies key_lt(#[trigger] cancelled@[j]@, #[trigger] keys@[m]) by {
                    if j < before.len() {
                        assert(cancelled@[j] == before[j]);
                        assert(key_lt(before[j]@, keys@[m]));
                    } else {
                        assert(cancelled@[j]@ == keys@[i as int]);
                        assert(key_lt(keys@[i as int], keys@[m]));
                    }
                }
                assert forall|a: int, b: int| 0 <= a < b < coord_keys(cancelled@).len() implies key_lt(#[trigger] coord_keys(cancelled@)[a], #[trigger] coord_keys(cancelled@)[b]) by {
                    if b < before.len() {
                        assert(coord_keys(before)[a] == coord_keys(cancelled@)[a]);
                        assert(coord_keys(before)[b] == coord_keys(cancelled@)[b]);
                    } else {
                        assert(cancelled@[a] == before[a]);
                        assert(key_lt(before[a]@, keys@[i as int]));
                    }
                }
            }
            i = i + 1;
        }
        proof {
            assert forall|x: TileKey| s0.contains(x) && !w.keeps(x) implies coord_keys(cancelled@).contains(x) by {
                assert(keys@.to_set().contains(x));
                let m = keys@.index_of(x);
                assert(!w.keeps(keys@[m]));
            }
            assert forall|x: TileKey| coord_keys(cancelled@).contains(x) implies s0.contains(x) && !w.keeps(x) by {
                let q = coord_keys(cancelled@).index_of(x);
                assert(cancelled@[q]@ == x);
            }
            assert(self.loading_tiles@ =~= kept_loading(s0, *w));
            assert(coord_keys(cancelled@).to_set() =~= s0.filter(|k: TileKey| !w.keeps(k)));
        }
        cancelled
    }

    /// Drops the loaded tiles that `w` does not keep.
    fn drop_unkept_loaded(&mut self, w: &TileWindow)
        ensures
            final(self).tiles_loaded() == kept_loaded(old(self).tiles_loaded(), *w),
            final(self).tiles_loading() == old(self).tiles_loading(),
            final(self).zoom() == old(self).zoom(),
            final(self).tile_server() == old(self).tile_server(),
    {
        proof { lemma_key_order(); }
        let keys = map_keys_in_order(&self.loaded_tiles);
        let ghost m0 = self.loaded_tiles@;
        let mut i: usize = 0;
        while i < keys.len()
            invariant
                keys_well_ordered(),
                0 <= i <= keys@.len(),
                keys@.to_set() == m0.dom(),
                keys@.no_duplicates(),
                self.loading_tiles@ == old(self).loading_tiles@,
                self.zoom_level == old(self).zoom_level,
                self.osm_url@ == old(self).osm_url@,
                self.loaded_tiles@ == m0.restrict(m0.dom().filter(|x: TileKey| w.keeps(x) || !keys@.take(i as int).contains(x))),
            decreases keys@.len() - i,
        {
            let k = keys[i];
            if !w.keeps_key(k) {
                self.loaded_tiles.remove(&k);
            }
            proof {
                broadcast use vstd::seq_lib::group_seq_properties;
                let t = keys@.take(i as int);
                let t1 = keys@.take(i + 1);
                assert(t1 =~= t.push(k));
                assert(self.loaded_tiles@ =~= m0.restrict(m0.dom().filter(|x: TileKey| w.keeps(x) || !t1.contains(x))));
            }
            i = i + 1;
        }
        proof {
            assert(keys@.take(keys@.len() as int) =~= keys@);
            assert(self.loaded_tiles@ =~= kept_loaded(m0, *w));
        }
    }

    /// Starts fetching every tile of `w` that is neither loaded nor being
    /// fetched, walking the window column by column, and returns the
    /// requests in that order.
    fn request_missing(&mut self, w: &TileWindow) -> (requests: Vec<TileRequest>)
        ensures
            final(self).tiles_loaded() == old(self).tiles_loaded(),
            final(self).tiles_loading() == old(self).tiles_loading().union(
                missing(*w, old(self).tiles_loaded(), old(self).tiles_loading()),
            ),
            final(self).zoom() == old(self).zoom(),
            final(self).tile_server() == old(self).tile_server(),
            request_keys(requests@).to_set() == missing(*w, old(self).tiles_loaded(), old(self).tiles_loading()),
            strictly_increasing(request_keys(requests@)),
            forall|j: int| 0 <= j < requests@.len() ==> (#[trigger] requests@[j]).url@ == tile_url_chars(
                old(self).tile_server(),
                requests@[j].coord@,
            ),
    {
        proof { lemma_key_order(); }
        let ghost l0 = self.loaded_tiles@;
        let ghost s0 = self.loading_tiles@;
        let mut requests: Vec<TileRequest> = Vec::new();
        let mut x = w.min_x;
        while x < w.max_x
            invariant
                keys_well_ordered(),
                w.min_x <= x,
                x <= w.max_x || x == w.min_x,
                self.loaded_tiles@ == l0,
                self.zoom_level == old(self).zoom_level,
                self.osm_url@ == old(self).osm_url@,
                self.loading_tiles@ == s0.union(missing_before(*w, l0, s0, x as int, w.min_y as int)),
                request_keys(requests@).to_set() == missing_before(*w, l0, s0, x as int, w.min_y as int),
                strictly_increasing(request_keys(requests@)),
                forall|j: int| 0 <= j < requests@.len() ==> (#[trigger] requests@[j]).coord.z == w.zoom && requests@[j].coord.x < x,
                forall|j: int| 0 <= j < requests@.len() ==> (#[trigger] requests@[j]).url@ == tile_url_chars(
                    old(self).osm_url@,
                    requests@[j].coord@,
                ),
            decreases w.max_x - x,
        {
            let mut y = w.min_y;
            while y < w.max_y
                invariant
                    keys_well_ordered(),
                    w.min_x <= x < w.max_x,
                    w.min_y <= y,
                    y <= w.max_y || y == w.min_y,
                    self.loaded_tiles@ == l0,
                    self.zoom_level == old(self).zoom_level,
                    self.osm_url@ == old(self).osm_url@,
                    self.loading_tiles@ == s0.union(missing_before(*w, l0, s0, x as int, y as int)),
                    request_keys(requests@).to_set() == missing_before(*w, l0, s0, x as int, y as int),
                    strictly_increasing(request_keys(requests@)),
                    forall|j: int| 0 <= j < requests@.len() ==> (#[trigger] requests@[j]).coord.z == w.zoom
                        && (requests@[j].coord.x < x || (requests@[j].coord.x == x && requests@[j].coord.y < y)),
                    forall|j: int| 0 <= j < requests@.len() ==> (#[trigger] requests@[j]).url@ == tile_url_chars(
                        old(self).osm_url@,
                        requests@[j].coord@,
                    ),
                decreases w.max_y - y,
            {
                let k: TileKey = (w.zoom, x, y);
                let ghost before = requests@;
                if !self.loaded_tiles.contains_key(&k) && !self.loading_tiles.contains(&k) {
                    self.loading_tiles.insert(k);
                    let coord = TileCoordinate::from_key(k);
                    let url = tile_url(self.osm_url.as_str(), coord);
                    requests.push(TileRequest { coord, url });
                    proof {
                        broadcast use vstd::seq_lib::group_seq_properties;
                        assert(request_keys(requests@) =~= request_keys(before).push(k));
                        assert forall|a: int, b: int| 0 <= a < b < request_keys(requests@).len() implies key_lt(
                            #[trigger] request_keys(requests@)[a],
                            #[trigger] request_keys(requests@)[b],
                        ) by {
                            if b < before.len() {
                                assert(request_keys(before)[a] == request_keys(requests@)[a]);
                                assert(request_keys(before)[b] == request_keys(requests@)[b]);
                            } else {
                                assert(requests@[a] == before[a]);
                            }
                        }
                        assert forall|j: int| 0 <= j < requests@.len() implies (#[trigger] requests@[j]).url@ == tile_url_chars(
                            old(self).osm_url@,
                            requests@[j].coord@,
                        ) by {
                            if j < before.len() {
                                assert(requests@[j] == before[j]);
                            }
                        }
                        assert forall|j: int| 0 <= j < requests@.len() implies (#[trigger] requests@[j]).coord.z == w.zoom
                            && (requests@[j].coord.x < x || (requests@[j].coord.x == x && requests@[j].coord.y < y + 1)) by {
                            if j < before.len() {
                                assert(requests@[j] == before[j]);
                            }
                        }
                    }
                }
                proof {
                    broadcast use vstd::seq_lib::group_seq_properties;
                    assert(missing_before(*w, l0, s0, x as int, y + 1) =~= if !l0.contains_key(k) && !s0.contains(k) {
                        missing_before(*w, l0, s0, x as int, y as int).insert(k)
                    } else {
                        missing_before(*w, l0, s0, x as int, y as int)
                    });
                    assert(self.loading_tiles@ =~= s0.union(missing_before(*w, l0, s0, x as int, y + 1)));
                    assert(request_keys(requests@).to_set() =~= missing_before(*w, l0, s0, x as int, y + 1));
                }
                y = y + 1;
            }
            proof {
                assert(missing_before(*w, l0, s0, x as int, y as int) =~= missing_before(*w, l0, s0, x + 1, w.min_y as int));
            }
            x = x + 1;
        }
        proof {
            assert(missing_before(*w, l0, s0, x as int, w.min_y as int) =~= missing(*w, l0, s0));
        }
        requests
    }

    /// The window of a view at this map's zoom level (see `view_window`).
    pub open spec fn window_of(&self, min_x: i64, min_y: i64, ceil_x: i64, ceil_y: i64) -> TileWindow {
        view_window(self.zoom(), min_x, min_y, ceil_x, ceil_y)
    }

    /// Brings the tiles in line with a new view: the view's left and top
    /// edges lie in tile column `min_x` and row `min_y`, its right and bottom
    /// edges at or before column `ceil_x` and row `ceil_y` (see
    /// `view_window`). Tiles that the window does not keep are dropped,
    /// loaded or being fetched; every tile of the window that is then
    /// neither loaded nor being fetched starts being fetched. The fetches to
    /// start and the fetches dropped are returned, each in increasing order.
    pub fn reset_view(&mut self, min_x: i64, min_y: i64, ceil_x: i64, ceil_y: i64) -> (update: ViewUpdate)
        requires
            old(self).wf(),
            old(self).zoom() < 64,
            ceil_x < i64::MAX,
            ceil_y < i64::MAX,
        ensures
            final(self).wf(),
            final(self).zoom() == old(self).zoom(),
            final(self).tile_server() == old(self).tile_server(),
            final(self).tiles_loaded() == kept_loaded(
                old(self).tiles_loaded(),
                old(self).window_of(min_x, min_y, ceil_x, ceil_y),
            ),
            final(self).tiles_loading() == kept_loading(
                old(self).tiles_loading(),
                old(self).window_of(min_x, min_y, ceil_x, ceil_y),
            ).union(
                missing(
                    old(self).window_of(min_x, min_y, ceil_x, ceil_y),
                    final(self).tiles_loaded(),
                    kept_loading(old(self).tiles_loading(), old(self).window_of(min_x, min_y, ceil_x, ceil_y)),
                ),
            ),
            request_keys(update.requests@).to_set() == missing(
                old(self).window_of(min_x, min_y, ceil_x, ceil_y),
                final(self).tiles_loaded(),
                kept_loading(old(self).tiles_loading(), old(self).window_of(min_x, min_y, ceil_x, ceil_y)),
            ),
            strictly_increasing(request_keys(update.requests@)),
            forall|j: int| 0 <= j < update.requests@.len() ==> (#[trigger] update.requests@[j]).url@
                == tile_url_chars(old(self).tile_server(), update.requests@[j].coord@),
            coord_keys(update.cancelled@).to_set() == old(self).tiles_loading().filter(
                |k: TileKey| !old(self).window_of(min_x, min_y, ceil_x, ceil_y).keeps(k),
            ),
            strictly_increasing(coord_keys(update.cancelled@)),
    {
        let w = TileWindow::covering(self.zoom_level, min_x, min_y, ceil_x, ceil_y);
        let cancelled = self.drop_unkept_loading(&w);
        self.drop_unkept_loaded(&w);
        let requests = self.request_missing(&w);
        proof {
            assert(self.wf()) by {
                assert(self.tiles_loaded().dom().disjoint(self.tiles_loading()));
            }
        }
        ViewUpdate { requests, cancelled }
    }

    /// Every loaded tile's pixel position fits in an `i64`.
    pub open spec fn pixels_fit(&self) -> bool {
        forall|k: TileKey| #[trigger] self.tiles_loaded().contains_key(k) ==> pixel_fits(k.1) && pixel_fits(k.2)
    }

    /// Whether `tile_placements` may be asked for.
    pub fn placements_fit(&self) -> (b: bool)
        ensures
            b == self.pixels_fit(),
    {
        proof { lemma_key_order(); }
        let keys = map_keys_in_order(&self.loaded_tiles);
        let mut i: usize = 0;
        while i < keys.len()
            invariant
                0 <= i <= keys@.len(),
                keys@.to_set() == self.loaded_tiles@.dom(),
                forall|j: int| 0 <= j < i ==> pixel_fits((#[trigger] keys@[j]).1) && pixel_fits(keys@[j].2),
            decreases keys@.len() - i,
        {
            let k = keys[i];
            if k.1 < i64::MIN / TILE_SIZE || k.1 > i64::MAX / TILE_SIZE || k.2 < i64::MIN / TILE_SIZE || k.2
                > i64::MAX / TILE_SIZE {
                proof {
                    assert(keys@.to_set().contains(k));
                    assert(self.tiles_loaded().contains_key(k));
                    let a = k.1;
                    let b = k.2;
                    assert(!(pixel_fits(a) && pixel_fits(b))) by (nonlinear_arith)
                        requires
                            a < -36028797018963968 || a > 36028797018963967 || b < -36028797018963968 || b > 36028797018963967,
                    {
                    }
                }
                return false;
            }
            i = i + 1;
        }
        proof {
            assert forall|k: TileKey| #[trigger] self.tiles_loaded().contains_key(k) implies pixel_fits(k.1) && pixel_fits(k.2) by {
                assert(keys@.to_set().contains(k));
                let j = keys@.index_of(k);
                assert(keys@[j] == k);
            }
        }
        true
    }

    /// Where each loaded tile is drawn, in increasing tile order: its
    /// column and row times `TILE_SIZE`.
    pub fn tile_placements(&self) -> (placements: Vec<TilePlacement>)
        requires
            self.pixels_fit(),
        ensures
            placement_keys(placements@).to_set() == self.tiles_loaded().dom(),
            strictly_increasing(placement_keys(placements@)),
            forall|j: int| 0 <= j < placements@.len() ==> {
                &&& (#[trigger] placements@[j]).x == pixel_of(placements@[j].coord.x)
                &&& placements@[j].y == pixel_of(placements@[j].coord.y)
            },
    {
        proof { lemma_key_order(); }
        let keys = map_keys_in_order(&self.loaded_tiles);
        let mut placements: Vec<TilePlacement> = Vec::new();
        let mut i: usize = 0;
        while i < keys.len()
            invariant
                0 <= i <= keys@.len(),
                keys@.to_set() == self.loaded_tiles@.dom(),
                strictly_increasing(keys@),
                self.pixels_fit(),
                placement_keys(placements@) == keys@.take(i as int),
                forall|j: int| 0 <= j < placements@.len() ==> {
                    &&& (#[trigger] placements@[j]).x == pixel_of(placements@[j].coord.x)
                    &&& placements@[j].y == pixel_of(placements@[j].coord.y)
                },
            decreases keys@.len() - i,
        {
            let k = keys[i];
            proof {
                assert(keys@.to_set().contains(k));
                assert(self.tiles_loaded().contains_key(k));
            }
            let ghost before = placements@;
            placements.push(TilePlacement { coord: TileCoordinate::from_key(k), x: k.1 * TILE_SIZE, y: k.2 * TILE_SIZE });
            proof {
                assert(placement_keys(placements@) =~= placement_keys(before).push(k));
                assert(keys@.take(i + 1) =~= keys@.take(i as int).push(k));
                assert forall|j: int| 0 <= j < placements@.len() implies {
                    &&& (#[trigger] placements@[j]).x == pixel_of(placements@[j].coord.x)
                    &&& placements@[j].y == pixel_of(placements@[j].coord.y)
                } by {
                    if j < before.len() {
                        assert(placements@[j] == before[j]);
                    }
                }
            }
            i = i + 1;
        }
        proof {
            assert(keys@.take(keys@.len() as int) =~= keys@);
        }
        placements
    }

    /// The pixel size of the whole world at the current zoom level:
    /// `TILE_SIZE` times the number of tiles per side.
    pub fn world_pixel_size(&self) -> (size: i64)
        requires
            self.zoom() <= 54,
        ensures
            size == TILE_SIZE * tiles_per_side(self.zoom()),
    {
        proof {
            vstd::arithmetic::power2::lemma2_to64_rest();
            if self.zoom_level < 54 {
                vstd::arithmetic::power2::lemma_pow2_strictly_increases(self.zoom_level as nat, 54);
            }
        }
        TILE_SIZE * tile_count(self.zoom_level)
    }

    /// The address of a tile on this map's tile server.
    pub fn tile_url(&self, coord: TileCoordinate) -> (url: String)
        ensures
            url@ == tile_url_chars(self.tile_server(), coord@),
    {
        tile_url(self.osm_url.as_str(), coord)
    }
}

} // verus!

verus! {

/// After a view is reset, every tile of its window is loaded or being
/// fetched.
pub proof fn lemma_reset_view_covers_window<I>(loaded: Map<TileKey, I>, loading: Set<TileKey>, w: TileWindow, k: TileKey)
    requires
        w.contains(k),
    ensures
        kept_loaded(loaded, w).contains_key(k) || kept_loading(loading, w).union(
            missing(w, kept_loaded(loaded, w), kept_loading(loading, w)),
        ).contains(k),
{
}

/// After a view is reset, every tile that is loaded or being fetched is at
/// the window's zoom level and within the keep margin around it.
pub proof fn lemma_reset_view_keeps_only_near_tiles<I>(loaded: Map<TileKey, I>, loading: Set<TileKey>, w: TileWindow, k: TileKey)
    requires
        kept_loaded(loaded, w).contains_key(k) || kept_loading(loading, w).union(
            missing(w, kept_loaded(loaded, w), kept_loading(loading, w)),
        ).contains(k),
    ensures
        w.keeps(k),
        k.0 == w.zoom,
{
}

/// Resetting the same view twice: the second reset drops nothing, fetches
/// nothing, and leaves the tiles as the first left them.
pub proof fn lemma_reset_view_twice<I>(loaded: Map<TileKey, I>, loading: Set<TileKey>, w: TileWindow)
    ensures
        ({
            let loaded1 = kept_loaded(loaded, w);
            let loading1 = kept_loading(loading, w).union(missing(w, loaded1, kept_loading(loading, w)));
            &&& kept_loaded(loaded1, w) == loaded1
            &&& kept_loading(loading1, w) == loading1
            &&& missing(w, kept_loaded(loaded1, w), kept_loading(loading1, w)) == Set::<TileKey>::empty()
            &&& loading1.filter(|k: TileKey| !w.keeps(k)) == Set::<TileKey>::empty()
        }),
{
    let loaded1 = kept_loaded(loaded, w);
    let loading1 = kept_loading(loading, w).union(missing(w, loaded1, kept_loading(loading, w)));
    assert(kept_loaded(loaded1, w) =~= loaded1);
    assert(kept_loading(loading1, w) =~= loading1);
    assert(missing(w, kept_loaded(loaded1, w), kept_loading(loading1, w)) =~= Set::<TileKey>::empty());
    assert(loading1.filter(|k: TileKey| !w.keeps(k)) =~= Set::<TileKey>::empty());
}

/// A reset never puts a tile in both the loaded and the fetched tiles, if
/// none was in both before.
pub proof fn lemma_reset_view_keeps_apart<I>(loaded: Map<TileKey, I>, loading: Set<TileKey>, w: TileWindow)
    requires
        loaded.dom().disjoint(loading),
    ensures
        kept_loaded(loaded, w).dom().disjoint(
            kept_loading(loading, w).union(missing(w, kept_loaded(loaded, w), kept_loading(loading, w))),
        ),
{
}

/// The tiles that a reset asks to fetch and the tiles it keeps fetching are
/// disjoint, and none of the tiles to fetch is loaded.
pub proof fn lemma_requests_are_new<I>(loaded: Map<TileKey, I>, loading: Set<TileKey>, w: TileWindow, k: TileKey)
    requires
        missing(w, kept_loaded(loaded, w), kept_loading(loading, w)).contains(k),
    ensures
        !kept_loading(loading, w).contains(k),
        !kept_loaded(loaded, w).contains_key(k),
        w.contains(k),
        kept_loading(loading, w).union(missing(w, kept_loaded(loaded, w), kept_loading(loading, w))).contains(k),
{
}

/// Finishing a fetch loses no tile and duplicates none: the tiles that are
/// loaded or being fetched stay the same, none is both, and the number of
/// loaded tiles never drops (it grows by one when the tile was being fetched).
pub proof fn lemma_finishing_a_fetch<I>(loaded: Map<TileKey, I>, loading: Set<TileKey>, k: TileKey, image: I)
    requires
        loaded.dom().disjoint(loading),
        loaded.dom().finite(),
    ensures
        loading.contains(k) ==> {
            &&& loaded.insert(k, image).dom().union(loading.remove(k)) == loaded.dom().union(loading)
            &&& loaded.insert(k, image).dom().disjoint(loading.remove(k))
            &&& loaded.insert(k, image).dom().len() == loaded.dom().len() + 1
        },
        loaded.dom().len() <= (if loading.contains(k) { loaded.insert(k, image) } else { loaded }).dom().len(),
{
    if loading.contains(k) {
        assert(!loaded.dom().contains(k));
        assert(loaded.insert(k, image).dom() =~= loaded.dom().insert(k));
        assert(loaded.insert(k, image).dom().union(loading.remove(k)) =~= loaded.dom().union(loading));
    }
}

/// After a view is reset, no tile is both loaded and being fetched, and
/// every tile that is either is at the window's zoom level, if no tile was
/// both before.
pub proof fn lemma_reset_view_same_zoom_and_apart<I>(loaded: Map<TileKey, I>, loading: Set<TileKey>, w: TileWindow)
    requires
        loaded.dom().disjoint(loading),
    ensures
        ({
            let loaded1 = kept_loaded(loaded, w);
            let loading1 = kept_loading(loading, w).union(missing(w, loaded1, kept_loading(loading, w)));
            &&& loaded1.dom().disjoint(loading1)
            &&& forall|k: TileKey| #![trigger loaded1.dom().contains(k)] #![trigger loading1.contains(k)]
                loaded1.dom().contains(k) || loading1.contains(k) ==> k.0 == w.zoom
        }),
{
}

/// After a view is reset, every tile that is loaded or being fetched lies
/// less than 10 columns and less than 10 rows outside the window; a fetch
/// of a tile 10 or more columns or rows away is among the abandoned ones,
/// and such a loaded tile is dropped.
pub proof fn lemma_reset_view_drops_far_tiles<I>(loaded: Map<TileKey, I>, loading: Set<TileKey>, w: TileWindow, k: TileKey)
    ensures
        ({
            let loaded1 = kept_loaded(loaded, w);
            let loading1 = kept_loading(loading, w).union(missing(w, loaded1, kept_loading(loading, w)));
            &&& (loaded1.dom().contains(k) || loading1.contains(k)) ==> {
                &&& k.0 == w.zoom
                &&& w.min_x - 10 < k.1 < w.max_x + 10
                &&& w.min_y - 10 < k.2 < w.max_y + 10
            }
            &&& (k.1 <= w.min_x - 10 || k.1 >= w.max_x + 10 || k.2 <= w.min_y - 10 || k.2 >= w.max_y + 10) ==> {
                &&& !loaded1.dom().contains(k)
                &&& !loading1.contains(k)
                &&& (loading.contains(k) ==> loading.filter(|c: TileKey| !w.keeps(c)).contains(k))
            }
        }),
{
}

} // verus!
