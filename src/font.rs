//! Per-font caches of glyph bitmaps read from a backing store.
use vstd::prelude::*;

use crate::lru::{
    index_of, insert_all, lemma_overflow_evicts_first_inserted, keys_unique, lemma_index_of, lemma_insert_shape, lemma_touch_shape, lru_insert, touch,
};

verus! {

#[verifier::external_type_specification]
#[verifier::external_body]
#[verifier::reject_recursive_types(T)]
pub struct ExLRUCache<T, const N: usize>(uluru::LRUCache<T, N>);

/// One cached glyph bitmap.
pub struct GraphCache {
    pub(crate) graph_id: u16,
    pub(crate) graph_data: Vec<u8>,
}

impl GraphCache {
    /// Whether this entry holds the bitmap of `graph_id`.
    pub(crate) fn is_graph(&self, graph_id: u16) -> (r: bool)
        ensures
            r == (self.graph_id == graph_id),
    {
        self.graph_id == graph_id
    }
}

/// Number of bitmaps a font cache holds at most.
pub const GRAPH_CACHE_CAPACITY: usize = 256;

/// The entries of a bitmap cache, most recently used first, each as glyph id
/// and bitmap bytes.
pub uninterp spec fn graph_entries(c: uluru::LRUCache<GraphCache, 256>) -> Seq<(u16, Seq<u8>)>;

/// Relies on uluru's `LRUCache::default`: a new cache is empty.
#[verifier::external_body]
fn graph_lru_new() -> (r: uluru::LRUCache<GraphCache, 256>)
    ensures
        graph_entries(r) == Seq::<(u16, Seq<u8>)>::empty(),
{
    uluru::LRUCache::default()
}

/// Relies on uluru's `LRUCache::find`: the first entry, from the front, that
/// holds `graph_id` moves to the front and its bitmap is returned; without
/// one the cache is unchanged.
#[verifier::external_body]
fn graph_lru_find(c: &mut uluru::LRUCache<GraphCache, 256>, graph_id: u16) -> (r: Option<Vec<u8>>)
    ensures
        index_of(graph_entries(*old(c)), graph_id) < 0 ==> r.is_none() && graph_entries(*final(c))
            == graph_entries(*old(c)),
        index_of(graph_entries(*old(c)), graph_id) >= 0 ==> r.is_some() && r.unwrap()@
            == graph_entries(*old(c))[index_of(graph_entries(*old(c)), graph_id)].1
            && graph_entries(*final(c)) == touch(
            graph_entries(*old(c)),
            index_of(graph_entries(*old(c)), graph_id),
        ),
{
    c.find(|g: &GraphCache| g.is_graph(graph_id)).map(|g| g.graph_data.clone())
}

/// Relies on uluru's `LRUCache::insert`: the entry goes to the front, and the
/// back entry leaves when the cache already holds 256.
#[verifier::external_body]
fn graph_lru_insert(c: &mut uluru::LRUCache<GraphCache, 256>, e: GraphCache)
    ensures
        graph_entries(*final(c)) == lru_insert(
            graph_entries(*old(c)),
            (e.graph_id, e.graph_data@),
            GRAPH_CACHE_CAPACITY as int,
        ),
{
    c.insert(e);
}

/// Largest bitmap record a font cache takes, so that every offset fits.
pub const MAX_RECORD_SIZE: usize = 0x10000;

/// A read that the backing store has to serve: the record of `graph_id`,
/// `len` bytes at `offset`.
pub struct StoreRead {
    pub graph_id: u16,
    pub offset: usize,
    pub len: usize,
}

/// Outcome of a bitmap lookup: the cached bytes, or the read that fetches
/// them from the backing store on a miss.
pub enum GraphLookup {
    Cached(Vec<u8>),
    Load(StoreRead),
}

/// A bounded LRU cache of the fixed-size bitmap records of one font.
pub struct FontCache {
    entries: uluru::LRUCache<GraphCache, 256>,
    record_size: usize,
}

impl View for FontCache {
    type V = Seq<(u16, Seq<u8>)>;

    /// The cached entries, most recently used first.
    closed spec fn view(&self) -> Seq<(u16, Seq<u8>)> {
        graph_entries(self.entries)
    }
}

impl FontCache {
    /// Byte size of one bitmap record of this font.
    pub closed spec fn record_size_spec(&self) -> nat {
        self.record_size as nat
    }

    /// At most `GRAPH_CACHE_CAPACITY` entries, no glyph id twice, every
    /// bitmap one record long.
    pub open spec fn wf(&self) -> bool {
        &&& self@.len() <= GRAPH_CACHE_CAPACITY
        &&& keys_unique(self@)
        &&& forall|i: int| 0 <= i < self@.len() ==> (#[trigger] self@[i]).1.len()
            == self.record_size_spec()
        &&& 0 < self.record_size_spec() <= MAX_RECORD_SIZE
    }

    /// An empty cache for records of `record_size` bytes.
    pub fn new(record_size: usize) -> (r: FontCache)
        requires
            0 < record_size <= MAX_RECORD_SIZE,
        ensures
            r.wf(),
            r@ == Seq::<(u16, Seq<u8>)>::empty(),
            r.record_size_spec() == record_size,
    {
        FontCache { entries: graph_lru_new(), record_size }
    }

    /// Byte size of one bitmap record of this font.
    pub fn record_size(&self) -> (r: usize)
        ensures
            r == self.record_size_spec(),
    {
        self.record_size
    }

    /// What a lookup of `graph_id` in `pre` leaves (`post`) and returns (`r`).
    pub open spec fn lookup_post(pre: FontCache, post: FontCache, graph_id: u16, r: GraphLookup) -> bool {
        let i = index_of(pre@, graph_id);
        &&& post.wf()
        &&& post.record_size_spec() == pre.record_size_spec()
        &&& i >= 0 ==> r is Cached && r->Cached_0@ == pre@[i].1 && post@ == touch(pre@, i)
        &&& i < 0 ==> r is Load && r->Load_0.graph_id == graph_id
            && r->Load_0.offset == graph_id * pre.record_size_spec()
            && r->Load_0.len == pre.record_size_spec() && post@ == pre@
    }

    /// Looks up the bitmap of `graph_id`. On a hit the entry becomes the most
    /// recently used and its bytes are returned; on a miss the cache is
    /// unchanged and the result names the record to read from the store, at
    /// `graph_id` times the record size.
    pub fn lookup(&mut self, graph_id: u16) -> (r: GraphLookup)
        requires
            old(self).wf(),
        ensures
            Self::lookup_post(*old(self), *final(self), graph_id, r),
    {
        proof {
            lemma_index_of(self@, graph_id);
        }
        let ghost before = self@;
        match graph_lru_find(&mut self.entries, graph_id) {
            Some(graph_data) => {
                proof {
                    lemma_touch_shape(before, index_of(before, graph_id));
                }
                GraphLookup::Cached(graph_data)
            },
            None => {
                let size = self.record_size;
                assert(0 <= graph_id * size <= 0xFFFF * MAX_RECORD_SIZE) by (nonlinear_arith)
                    requires
                        0 < size <= MAX_RECORD_SIZE,
                ;
                GraphLookup::Load(StoreRead { graph_id, offset: graph_id as usize * size, len: size })
            },
        }
    }

    /// Caches the bitmap of `graph_id` as the most recently used entry; when
    /// the cache is full the least recently used entry leaves.
    pub fn insert(&mut self, graph_id: u16, graph_data: Vec<u8>)
        requires
            old(self).wf(),
            index_of(old(self)@, graph_id) < 0,
            graph_data@.len() == old(self).record_size_spec(),
        ensures
            final(self).wf(),
            final(self).record_size_spec() == old(self).record_size_spec(),
            final(self)@ == lru_insert(
                old(self)@,
                (graph_id, graph_data@),
                GRAPH_CACHE_CAPACITY as int,
            ),
    {
        let ghost before = self@;
        proof {
            lemma_insert_shape(before, (graph_id, graph_data@), GRAPH_CACHE_CAPACITY as int);
        }
        graph_lru_insert(&mut self.entries, GraphCache { graph_id, graph_data });
    }
}

/// The three font families.
#[derive(Debug, PartialEq, Eq, Structural, Clone, Copy)]
pub enum FontId {
    Font1,
    Font2,
    Font3,
}

/// Record size of the bitmaps of the first and second font.
pub const SMALL_RECORD_SIZE: usize = 0x40;

/// Record size of the bitmaps of the third font.
pub const LARGE_RECORD_SIZE: usize = 0x80;

/// Record size of the advance widths of the third font.
pub const WIDTH_RECORD_SIZE: usize = 1;

/// The bitmap caches of the three fonts and the width cache of the third.
pub struct FontLoader {
    pub font1_cache: FontCache,
    pub font2_cache: FontCache,
    pub font3_cache: FontCache,
    pub font3_width_cache: FontCache,
}

impl FontLoader {
    /// Every cache well formed, with the record size of its font.
    pub open spec fn wf(&self) -> bool {
        &&& self.font1_cache.wf()
        &&& self.font2_cache.wf()
        &&& self.font3_cache.wf()
        &&& self.font3_width_cache.wf()
        &&& self.font1_cache.record_size_spec() == SMALL_RECORD_SIZE
        &&& self.font2_cache.record_size_spec() == SMALL_RECORD_SIZE
        &&& self.font3_cache.record_size_spec() == LARGE_RECORD_SIZE
        &&& self.font3_width_cache.record_size_spec() == WIDTH_RECORD_SIZE
    }

    /// The bitmap cache of `font_id`.
    pub open spec fn cache_of(&self, font_id: FontId) -> FontCache {
        match font_id {
            FontId::Font1 => self.font1_cache,
            FontId::Font2 => self.font2_cache,
            FontId::Font3 => self.font3_cache,
        }
    }

    /// Four empty caches.
    pub fn new() -> (r: FontLoader)
        ensures
            r.wf(),
            r.font1_cache@.len() == 0,
            r.font2_cache@.len() == 0,
            r.font3_cache@.len() == 0,
            r.font3_width_cache@.len() == 0,
    {
        FontLoader {
            font1_cache: FontCache::new(SMALL_RECORD_SIZE),
            font2_cache: FontCache::new(SMALL_RECORD_SIZE),
            font3_cache: FontCache::new(LARGE_RECORD_SIZE),
            font3_width_cache: FontCache::new(WIDTH_RECORD_SIZE),
        }
    }

    /// Looks up the bitmap of `graph_id` in the cache of `font_id`; the other
    /// caches are left alone.
    pub fn get_graph(&mut self, graph_id: u16, font_id: FontId) -> (r: GraphLookup)
        requires
            old(self).wf(),
        ensures
            final(self).wf(),
            FontCache::lookup_post(
                old(self).cache_of(font_id),
                final(self).cache_of(font_id),
                graph_id,
                r,
            ),
            forall|f: FontId| f != font_id ==> final(self).cache_of(f) == old(self).cache_of(f),
            final(self).font3_width_cache == old(self).font3_width_cache,
    {
        match font_id {
            FontId::Font1 => self.get_graph_font1(graph_id),
            FontId::Font2 => self.get_graph_font2(graph_id),
            FontId::Font3 => self.get_graph_font3(graph_id),
        }
    }

    /// Caches the bitmap `graph_data` of `graph_id` in the cache of `font_id`,
    /// as its most recently used entry; the other caches are left alone.
    pub fn insert_graph(&mut self, graph_id: u16, font_id: FontId, graph_data: Vec<u8>)
        requires
            old(self).wf(),
            index_of(old(self).cache_of(font_id)@, graph_id) < 0,
            graph_data@.len() == old(self).cache_of(font_id).record_size_spec(),
        ensures
            final(self).wf(),
            final(self).cache_of(font_id)@ == lru_insert(
                old(self).cache_of(font_id)@,
                (graph_id, graph_data@),
                GRAPH_CACHE_CAPACITY as int,
            ),
            forall|f: FontId| f != font_id ==> final(self).cache_of(f) == old(self).cache_of(f),
            final(self).font3_width_cache == old(self).font3_width_cache,
    {
        match font_id {
            FontId::Font1 => self.font1_cache.insert(graph_id, graph_data),
            FontId::Font2 => self.font2_cache.insert(graph_id, graph_data),
            FontId::Font3 => self.font3_cache.insert(graph_id, graph_data),
        }
    }

    /// Looks up a bitmap of the first font.
    pub fn get_graph_font1(&mut self, graph_id: u16) -> (r: GraphLookup)
        requires
            old(self).wf(),
        ensures
            final(self).wf(),
            FontCache::lookup_post(old(self).font1_cache, final(self).font1_cache, graph_id, r),
            final(self).font2_cache == old(self).font2_cache,
            final(self).font3_cache == old(self).font3_cache,
            final(self).font3_width_cache == old(self).font3_width_cache,
    {
        self.font1_cache.lookup(graph_id)
    }

    /// Looks up a bitmap of the second font.
    pub fn get_graph_font2(&mut self, graph_id: u16) -> (r: GraphLookup)
        requires
            old(self).wf(),
        ensures
            final(self).wf(),
            FontCache::lookup_post(old(self).font2_cache, final(self).font2_cache, graph_id, r),
            final(self).font1_cache == old(self).font1_cache,
            final(self).font3_cache == old(self).font3_cache,
            final(self).font3_width_cache == old(self).font3_width_cache,
    {
        self.font2_cache.lookup(graph_id)
    }

    /// Looks up a bitmap of the third font.
    pub fn get_graph_font3(&mut self, graph_id: u16) -> (r: GraphLookup)
        requires
            old(self).wf(),
        ensures
            final(self).wf(),
            FontCache::lookup_post(old(self).font3_cache, final(self).font3_cache, graph_id, r),
            final(self).font1_cache == old(self).font1_cache,
            final(self).font2_cache == old(self).font2_cache,
            final(self).font3_width_cache == old(self).font3_width_cache,
    {
        self.font3_cache.lookup(graph_id)
    }

    /// Looks up the one-byte advance width of a glyph of the third font.
    pub fn get_graph_font3_width(&mut self, graph_id: u16) -> (r: GraphLookup)
        requires
            old(self).wf(),
        ensures
            final(self).wf(),
            FontCache::lookup_post(
                old(self).font3_width_cache,
                final(self).font3_width_cache,
                graph_id,
                r,
            ),
            final(self).font1_cache == old(self).font1_cache,
            final(self).font2_cache == old(self).font2_cache,
            final(self).font3_cache == old(self).font3_cache,
    {
        self.font3_width_cache.lookup(graph_id)
    }
}

impl Default for FontLoader {
    /// Four empty caches.
    fn default() -> (r: FontLoader)
        ensures
            r.wf(),
            r.font1_cache@.len() == 0,
            r.font2_cache@.len() == 0,
            r.font3_cache@.len() == 0,
            r.font3_width_cache@.len() == 0,
    {
        FontLoader::new()
    }
}

/// Address of the first font's bitmap table in the host's memory.
pub const FONT1_POS: usize = 0x020B7898;

/// Address of the second font's bitmap table in the host's memory.
pub const FONT2_POS: usize = 0x020C0098;

/// Address of the third font's bitmap table in the host's memory.
pub const FONT3_POS: usize = 0x020C8898;

/// Number of glyphs in each of the host's bitmap tables.
pub const HOST_GLYPH_COUNT: usize = 0x1E3;

/// The font and glyph index of the host's bitmap at `addr`, if it lies in
/// one of the three tables.
pub open spec fn font_graph_of_addr(addr: int) -> Option<(FontId, int)> {
    if FONT1_POS <= addr < FONT1_POS + 0x40 * HOST_GLYPH_COUNT {
        Some((FontId::Font1, (addr - FONT1_POS) / 0x40))
    } else if FONT2_POS <= addr < FONT2_POS + 0x40 * HOST_GLYPH_COUNT {
        Some((FontId::Font2, (addr - FONT2_POS) / 0x40))
    } else if FONT3_POS <= addr < FONT3_POS + 0x80 * HOST_GLYPH_COUNT {
        Some((FontId::Font3, (addr - FONT3_POS) / 0x80))
    } else {
        None
    }
}

/// Tells which font table, and which glyph of it, the host address `addr`
/// falls in.
pub fn get_font_graph_id_by_addr(addr: usize) -> (r: Option<(FontId, usize)>)
    ensures
        match font_graph_of_addr(addr as int) {
            Some((font_id, index)) => r == Some((font_id, index as usize)),
            None => r is None,
        },
{
    if FONT1_POS <= addr && addr < FONT1_POS + 0x40 * HOST_GLYPH_COUNT {
        Some((FontId::Font1, (addr - FONT1_POS) / 0x40))
    } else if FONT2_POS <= addr && addr < FONT2_POS + 0x40 * HOST_GLYPH_COUNT {
        Some((FontId::Font2, (addr - FONT2_POS) / 0x40))
    } else if FONT3_POS <= addr && addr < FONT3_POS + 0x80 * HOST_GLYPH_COUNT {
        Some((FontId::Font3, (addr - FONT3_POS) / 0x80))
    } else {
        None
    }
}

/// Inserting 257 distinct glyph ids, one after another, into an empty font
/// cache evicts exactly the first of them; the other 256 stay cached.
pub proof fn lemma_font_cache_evicts_first_inserted(entries: Seq<(u16, Seq<u8>)>)
    requires
        entries.len() == GRAPH_CACHE_CAPACITY + 1,
        keys_unique(entries),
    ensures
        index_of(insert_all(Seq::empty(), entries, GRAPH_CACHE_CAPACITY as int), entries[0].0) < 0,
        forall|k: int|
            1 <= k < entries.len() ==> index_of(
                insert_all(Seq::empty(), entries, GRAPH_CACHE_CAPACITY as int),
                #[trigger] entries[k].0,
            ) >= 0,
{
    lemma_overflow_evicts_first_inserted(entries, GRAPH_CACHE_CAPACITY as int);
}

/// The states a run of inserts goes through are those of `insert_all`.
proof fn lemma_insert_run<V>(states: Seq<Seq<(u16, V)>>, entries: Seq<(u16, V)>, cap: int, k: int)
    requires
        states.len() == entries.len() + 1,
        states[0] == Seq::<(u16, V)>::empty(),
        forall|j: int| 0 <= j < entries.len() ==> #[trigger] states[j + 1] == lru_insert(
            states[j],
            entries[j],
            cap,
        ),
        0 <= k <= entries.len(),
    ensures
        states[k] == insert_all(Seq::empty(), entries.take(k), cap),
    decreases k,
{
    if k > 0 {
        lemma_insert_run(states, entries, cap, k - 1);
        assert(entries.take(k).drop_last() =~= entries.take(k - 1));
        assert(states[(k - 1) + 1] == lru_insert(states[k - 1], entries[k - 1], cap));
    } else {
        assert(entries.take(0) =~= Seq::<(u16, V)>::empty());
    }
}

/// Fetching 257 distinct glyphs, one after another with no other access,
/// into an empty font cache (each state following from the one before as
/// `FontCache::insert` ensures) leaves exactly the last 256 of them cached,
/// the last one in front: only the first inserted is evicted.
pub proof fn lemma_font_cache_insert_run_evicts_first(
    caches: Seq<FontCache>,
    entries: Seq<(u16, Seq<u8>)>,
)
    requires
        entries.len() == GRAPH_CACHE_CAPACITY + 1,
        keys_unique(entries),
        caches.len() == entries.len() + 1,
        caches[0]@ == Seq::<(u16, Seq<u8>)>::empty(),
        forall|k: int| 0 <= k < entries.len() ==> (#[trigger] caches[k + 1])@ == lru_insert(
            caches[k]@,
            entries[k],
            GRAPH_CACHE_CAPACITY as int,
        ),
    ensures
        caches.last()@.len() == GRAPH_CACHE_CAPACITY,
        caches.last()@[0] == entries.last(),
        index_of(caches.last()@, entries[0].0) < 0,
        forall|k: int| 1 <= k < entries.len() ==> index_of(caches.last()@, #[trigger] entries[k].0) >= 0,
{
    let states = Seq::new(caches.len(), |k: int| caches[k]@);
    assert forall|j: int| 0 <= j < entries.len() implies #[trigger] states[j + 1] == lru_insert(
        states[j],
        entries[j],
        GRAPH_CACHE_CAPACITY as int,
    ) by {
        assert(caches[j + 1]@ == lru_insert(caches[j]@, entries[j], GRAPH_CACHE_CAPACITY as int));
    }
    lemma_insert_run(states, entries, GRAPH_CACHE_CAPACITY as int, entries.len() as int);
    assert(entries.take(entries.len() as int) =~= entries);
    lemma_overflow_evicts_first_inserted(entries, GRAPH_CACHE_CAPACITY as int);
    let prefix = entries.drop_last();
    crate::lru::lemma_insert_shape(
        insert_all(Seq::empty(), prefix, GRAPH_CACHE_CAPACITY as int),
        entries.last(),
        GRAPH_CACHE_CAPACITY as int,
    );
    lemma_insert_run(states, entries, GRAPH_CACHE_CAPACITY as int, prefix.len() as int);
    assert(entries.take(prefix.len() as int) =~= prefix);
    assert(states[prefix.len() as int].len() == GRAPH_CACHE_CAPACITY) by {
        crate::lru::lemma_insert_all_fits(prefix, GRAPH_CACHE_CAPACITY as int);
    }
}

} // verus!
