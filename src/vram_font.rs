//! The cache of glyph bitmaps resident in a bounded video-memory window.
use vstd::prelude::*;

use crate::editor::{fill_zero, overwrite, write_bytes, zeros};
use crate::font::{FontLoader, GraphLookup, StoreRead, SMALL_RECORD_SIZE};
use crate::lru::{
    index_of, lemma_index_of_unique, keys_unique, lemma_index_of, lemma_insert_shape, lemma_touch_shape, lru_insert, touch,
};

verus! {

/// A glyph resident in video memory, and the slot it occupies.
#[derive(Debug, Default)]
pub struct VRamGraphEntry {
    pub(crate) graph_id: u16,
    pub(crate) vram_id: u16,
}

impl VRamGraphEntry {
    /// Whether this entry holds `graph_id`.
    pub(crate) fn is_graph(&self, graph_id: u16) -> (r: bool)
        ensures
            r == (self.graph_id == graph_id),
    {
        self.graph_id == graph_id
    }
}

/// Number of slots the window can be configured with at most.
pub const MAX_VRAM_SLOTS: usize = 192;

/// Number of slots of a loader built with `default`.
pub const DEFAULT_VRAM_SLOTS: usize = 128;

/// Byte size of one slot: one bitmap of the second font.
pub const VRAM_SLOT_SIZE: usize = 0x40;

/// Bytes at the tile base kept for two blank tiles, before the first slot.
pub const RESERVED_TILE_BYTES: usize = 0x80;

/// Offset of slot `slot` from the tile base.
pub open spec fn slot_offset(slot: int) -> int {
    RESERVED_TILE_BYTES + slot * VRAM_SLOT_SIZE
}

/// The entries of a slot cache, most recently used first, each as glyph id
/// and slot index.
pub uninterp spec fn vram_entries(c: uluru::LRUCache<VRamGraphEntry, 192>) -> Seq<(u16, u16)>;

/// Relies on uluru's `LRUCache::default`: a new cache is empty.
#[verifier::external_body]
fn vram_lru_new() -> (r: uluru::LRUCache<VRamGraphEntry, 192>)
    ensures
        vram_entries(r) == Seq::<(u16, u16)>::empty(),
{
    uluru::LRUCache::default()
}

/// Relies on uluru's `LRUCache::clear`: every entry leaves.
#[verifier::external_body]
fn vram_lru_clear(c: &mut uluru::LRUCache<VRamGraphEntry, 192>)
    ensures
        vram_entries(*final(c)) == Seq::<(u16, u16)>::empty(),
{
    c.clear()
}

/// Relies on uluru's `LRUCache::len`: the number of entries.
#[verifier::external_body]
fn vram_lru_len(c: &uluru::LRUCache<VRamGraphEntry, 192>) -> (r: usize)
    ensures
        r == vram_entries(*c).len(),
{
    c.len()
}

/// Relies on uluru's `LRUCache::find`: the first entry, from the front, that
/// holds `graph_id` moves to the front and its slot is returned; without one
/// the cache is unchanged.
#[verifier::external_body]
fn vram_lru_find(c: &mut uluru::LRUCache<VRamGraphEntry, 192>, graph_id: u16) -> (r: Option<u16>)
    ensures
        index_of(vram_entries(*old(c)), graph_id) < 0 ==> r.is_none() && vram_entries(*final(c))
            == vram_entries(*old(c)),
        index_of(vram_entries(*old(c)), graph_id) >= 0 ==> r == Some(
            vram_entries(*old(c))[index_of(vram_entries(*old(c)), graph_id)].1,
        ) && vram_entries(*final(c)) == touch(
            vram_entries(*old(c)),
            index_of(vram_entries(*old(c)), graph_id),
        ),
{
    c.find(|e: &VRamGraphEntry| e.is_graph(graph_id)).map(|e| e.vram_id)
}

/// Relies on uluru's `LRUCache::iter`, whose last item is the least recently
/// used entry.
#[verifier::external_body]
fn vram_lru_back(c: &uluru::LRUCache<VRamGraphEntry, 192>) -> (r: Option<(u16, u16)>)
    ensures
        vram_entries(*c).len() == 0 ==> r.is_none(),
        vram_entries(*c).len() > 0 ==> r == Some(vram_entries(*c).last()),
{
    c.iter().last().map(|e| (e.graph_id, e.vram_id))
}

/// Relies on uluru's `LRUCache::insert`: the entry goes to the front, and the
/// back entry leaves when the cache already holds 192.
#[verifier::external_body]
fn vram_lru_insert(c: &mut uluru::LRUCache<VRamGraphEntry, 192>, e: VRamGraphEntry)
    ensures
        vram_entries(*final(c)) == lru_insert(
            vram_entries(*old(c)),
            (e.graph_id, e.vram_id),
            MAX_VRAM_SLOTS as int,
        ),
{
    c.insert(e);
}

/// Relies on uluru's `LRUCache::front_mut`: the front entry is the most
/// recently used one, and writing through it replaces that entry in place.
#[verifier::external_body]
fn vram_lru_replace_front(c: &mut uluru::LRUCache<VRamGraphEntry, 192>, e: VRamGraphEntry)
    ensures
        vram_entries(*old(c)).len() == 0 ==> vram_entries(*final(c)) == vram_entries(*old(c)),
        vram_entries(*old(c)).len() > 0 ==> vram_entries(*final(c)) == seq![(e.graph_id, e.vram_id)]
            + vram_entries(*old(c)).drop_first(),
{
    if let Some(front) = c.front_mut() {
        *front = e;
    }
}

/// Slot a miss takes in a cache holding `s` with `capacity` slots: the next
/// unused one, or that of the least recently used entry when all are taken.
pub open spec fn next_slot(s: Seq<(u16, u16)>, capacity: int) -> u16 {
    if s.len() < capacity { s.len() as u16 } else { s.last().1 }
}

/// The slots of `s` are `0 .. s.len()`, each held by one entry.
pub open spec fn slots_permute(s: Seq<(u16, u16)>) -> bool {
    &&& forall|i: int| 0 <= i < s.len() ==> (#[trigger] s[i]).1 < s.len()
    &&& forall|i: int, j: int| 0 <= i < s.len() && 0 <= j < s.len() && i != j ==> s[i].1 != s[j].1
}

/// Moving an entry to the front keeps the slots a permutation.
proof fn lemma_touch_slots(s: Seq<(u16, u16)>, i: int)
    requires
        0 <= i < s.len(),
        slots_permute(s),
    ensures
        slots_permute(touch(s, i)),
{
    lemma_touch_shape(s, i);
    let t = touch(s, i);
    assert forall|a: int| 0 <= a < t.len() implies (#[trigger] t[a]).1 < t.len() by {
        let sa = if a == 0 { i } else if a <= i { a - 1 } else { a };
        assert(t[a] == s[sa]);
    }
    assert forall|a: int, b: int| 0 <= a < t.len() && 0 <= b < t.len() && a != b implies t[a].1
        != t[b].1 by {
        let sa = if a == 0 { i } else if a <= i { a - 1 } else { a };
        let sb = if b == 0 { i } else if b <= i { b - 1 } else { b };
        assert(t[a] == s[sa]);
        assert(t[b] == s[sb]);
    }
}

/// A new entry in the next unused slot keeps the slots a permutation.
proof fn lemma_fill_slots(s: Seq<(u16, u16)>, e: (u16, u16))
    requires
        slots_permute(s),
        e.1 == s.len(),
    ensures
        slots_permute(seq![e] + s),
{
    let t = seq![e] + s;
    assert forall|a: int| 0 <= a < t.len() implies (#[trigger] t[a]).1 < t.len() by {
        if a > 0 {
            assert(t[a] == s[a - 1]);
        }
    }
    assert forall|a: int, b: int| 0 <= a < t.len() && 0 <= b < t.len() && a != b implies t[a].1
        != t[b].1 by {
        if a > 0 {
            assert(t[a] == s[a - 1]);
        }
        if b > 0 {
            assert(t[b] == s[b - 1]);
        }
    }
}

/// A new entry taking the slot of the back entry, which leaves, keeps the
/// slots a permutation.
proof fn lemma_reuse_slots(s: Seq<(u16, u16)>, e: (u16, u16))
    requires
        slots_permute(s),
        s.len() > 0,
        e.1 == s.last().1,
    ensures
        slots_permute(seq![e] + s.drop_last()),
{
    let t = seq![e] + s.drop_last();
    let n = s.len() - 1;
    assert forall|a: int| 0 <= a < t.len() implies (#[trigger] t[a]).1 < t.len() by {
        if a > 0 {
            assert(t[a] == s[a - 1]);
        }
    }
    assert forall|a: int, b: int| 0 <= a < t.len() && 0 <= b < t.len() && a != b implies t[a].1
        != t[b].1 by {
        let sa = if a == 0 { n } else { a - 1 };
        let sb = if b == 0 { n } else { b - 1 };
        assert(t[a].1 == s[sa].1);
        assert(t[b].1 == s[sb].1);
    }
}

/// Outcome of a fetch: the slot now holding the glyph, or the read of its
/// bitmap that the second font's store has to serve first.
pub enum VramFetch {
    Slot(u16),
    Load(StoreRead),
}

/// Glyph bitmaps of the second font kept in a video-memory window of
/// `capacity` slots, reusing the least recently used slot when all are taken.
pub struct VRamFontLoader {
    vram_base_addr: usize,
    capacity: usize,
    vram_cache: uluru::LRUCache<VRamGraphEntry, 192>,
}

impl View for VRamFontLoader {
    type V = Seq<(u16, u16)>;

    /// The resident glyphs and their slots, most recently used first.
    closed spec fn view(&self) -> Seq<(u16, u16)> {
        vram_entries(self.vram_cache)
    }
}

impl VRamFontLoader {
    /// Number of slots of the window.
    pub closed spec fn capacity_spec(&self) -> nat {
        self.capacity as nat
    }

    /// Between one and `MAX_VRAM_SLOTS` slots, no more entries than slots,
    /// no glyph twice, and the slots in use are `0 .. len`, one per entry.
    pub open spec fn wf(&self) -> bool {
        &&& 0 < self.capacity_spec() <= MAX_VRAM_SLOTS
        &&& self@.len() <= self.capacity_spec()
        &&& keys_unique(self@)
        &&& slots_permute(self@)
    }

    /// Number of bytes that the slots cover.
    pub open spec fn slots_len(&self) -> nat {
        self.capacity_spec() * (VRAM_SLOT_SIZE as nat)
    }

    /// Number of bytes of the window, from the tile base: the blank tiles,
    /// then the slots.
    pub open spec fn window_len(&self) -> nat {
        RESERVED_TILE_BYTES as nat + self.slots_len()
    }

    /// An empty cache of `capacity` slots, the first of them at
    /// `vram_base_addr`.
    pub fn new(capacity: usize, vram_base_addr: usize) -> (r: VRamFontLoader)
        requires
            0 < capacity <= MAX_VRAM_SLOTS,
        ensures
            r.wf(),
            r@ == Seq::<(u16, u16)>::empty(),
            r.capacity_spec() == capacity,
            r.base_addr_spec() == vram_base_addr,
    {
        VRamFontLoader { vram_base_addr, capacity, vram_cache: vram_lru_new() }
    }

    /// Address of the first slot.
    pub closed spec fn base_addr_spec(&self) -> usize {
        self.vram_base_addr
    }

    /// Address of the first slot.
    pub fn vram_base_addr(&self) -> (r: usize)
        ensures
            r == self.base_addr_spec(),
    {
        self.vram_base_addr
    }

    /// Number of slots of the window.
    pub fn capacity(&self) -> (r: usize)
        ensures
            r == self.capacity_spec(),
    {
        self.capacity
    }

    /// Moves the first slot to `tile_base_addr`: every entry leaves and the
    /// slots are zero-filled. `window` holds the bytes of video memory from the
    /// tile base on, so the slots start `RESERVED_TILE_BYTES` into it; the
    /// blank tiles before them are left alone.
    pub fn reset(&mut self, tile_base_addr: usize, window: &mut Vec<u8>)
        requires
            old(self).wf(),
            old(self).window_len() <= old(window)@.len(),
        ensures
            final(self).wf(),
            final(self)@ == Seq::<(u16, u16)>::empty(),
            final(self).capacity_spec() == old(self).capacity_spec(),
            final(self).base_addr_spec() == tile_base_addr,
            final(window)@ == overwrite(
                old(window)@,
                RESERVED_TILE_BYTES as int,
                zeros(old(self).slots_len() as int),
            ),
    {
        self.vram_base_addr = tile_base_addr;
        vram_lru_clear(&mut self.vram_cache);
        fill_zero(window, RESERVED_TILE_BYTES, self.capacity * VRAM_SLOT_SIZE);
    }
}

impl VRamFontLoader {
    /// What a fetch of `graph_id` leaves and returns. A resident glyph keeps
    /// its slot and becomes the most recently used. Otherwise, when the second
    /// font's cache holds its bitmap, the bitmap is copied into `next_slot`,
    /// whose previous holder (if any) leaves; when it does not, nothing changes
    /// and the store read of the bitmap is returned.
    pub open spec fn fetch_post(
        pre: VRamFontLoader,
        post: VRamFontLoader,
        fonts_pre: FontLoader,
        fonts_post: FontLoader,
        window_pre: Seq<u8>,
        window_post: Seq<u8>,
        graph_id: u16,
        r: VramFetch,
    ) -> bool {
        let v = pre@;
        let i = index_of(v, graph_id);
        let f = fonts_pre.font2_cache@;
        let j = index_of(f, graph_id);
        let cap = pre.capacity_spec() as int;
        &&& post.wf()
        &&& fonts_post.wf()
        &&& post.capacity_spec() == pre.capacity_spec()
        &&& post.base_addr_spec() == pre.base_addr_spec()
        &&& fonts_post.font1_cache == fonts_pre.font1_cache
        &&& fonts_post.font3_cache == fonts_pre.font3_cache
        &&& fonts_post.font3_width_cache == fonts_pre.font3_width_cache
        &&& if i >= 0 {
            &&& r == VramFetch::Slot(v[i].1)
            &&& post@ == touch(v, i)
            &&& fonts_post.font2_cache == fonts_pre.font2_cache
            &&& window_post == window_pre
        } else if j >= 0 {
            &&& r == VramFetch::Slot(next_slot(v, cap))
            &&& post@ == lru_insert(v, (graph_id, next_slot(v, cap)), cap)
            &&& fonts_post.font2_cache@ == touch(f, j)
            &&& window_post == overwrite(
                window_pre,
                slot_offset(next_slot(v, cap) as int),
                f[j].1,
            )
        } else {
            &&& r is Load
            &&& r->Load_0.graph_id == graph_id
            &&& r->Load_0.offset == graph_id * SMALL_RECORD_SIZE
            &&& r->Load_0.len == SMALL_RECORD_SIZE
            &&& post@ == v
            &&& fonts_post.font2_cache@ == f
            &&& window_post == window_pre
        }
    }

    /// Makes the glyph `graph_index` of the second font resident and returns
    /// its slot, copying its bitmap into `window` (the bytes of the video
    /// memory window) on a miss; see `fetch_post`.
    pub fn fetch(&mut self, fonts: &mut FontLoader, window: &mut Vec<u8>, graph_index: u16) -> (r:
        VramFetch)
        requires
            old(self).wf(),
            old(fonts).wf(),
            old(self).window_len() <= old(window)@.len(),
        ensures
            Self::fetch_post(
                *old(self),
                *final(self),
                *old(fonts),
                *final(fonts),
                old(window)@,
                final(window)@,
                graph_index,
                r,
            ),
    {
        let ghost v = self@;
        proof {
            lemma_index_of(v, graph_index);
        }
        if let Some(slot) = vram_lru_find(&mut self.vram_cache, graph_index) {
            proof {
                lemma_touch_shape(v, index_of(v, graph_index));
                lemma_touch_slots(v, index_of(v, graph_index));
            }
            return VramFetch::Slot(slot);
        }
        let ghost f = fonts.font2_cache@;
        proof {
            lemma_index_of(f, graph_index);
        }
        match fonts.get_graph_font2(graph_index) {
            GraphLookup::Load(read) => VramFetch::Load(read),
            GraphLookup::Cached(graph_data) => {
                proof {
                    let j = index_of(f, graph_index);
                    assert(f[j].1.len() == SMALL_RECORD_SIZE);
                    assert(graph_data@.len() == VRAM_SLOT_SIZE);
                }
                let len = vram_lru_len(&self.vram_cache);
                let capacity = self.capacity;
                let (next_vram_id, back_graph_id): (u16, u16) = if len < capacity {
                    (len as u16, 0)
                } else {
                    match vram_lru_back(&self.vram_cache) {
                        Some((graph_id, vram_id)) => (vram_id, graph_id),
                        None => (0, 0),
                    }
                };
                assert(next_vram_id < capacity);
                assert(next_vram_id * VRAM_SLOT_SIZE + VRAM_SLOT_SIZE <= capacity * VRAM_SLOT_SIZE)
                    by (nonlinear_arith)
                    requires
                        next_vram_id < capacity,
                ;
                let save_at = RESERVED_TILE_BYTES + next_vram_id as usize * VRAM_SLOT_SIZE;
                write_bytes(window, save_at, graph_data.as_slice(), graph_data.len());
                assert(graph_data@.subrange(0, graph_data@.len() as int) =~= graph_data@);
                let entry = VRamGraphEntry { graph_id: graph_index, vram_id: next_vram_id };
                let ghost e = (graph_index, next_vram_id);
                proof {
                    lemma_insert_shape(v, e, capacity as int);
                }
                if len < capacity {
                    vram_lru_insert(&mut self.vram_cache, entry);
                    proof {
                        lemma_fill_slots(v, e);
                    }
                } else {
                    let ghost last = v.last();
                    proof {
                        lemma_index_of(v, last.0);
                        assert(index_of(v, last.0) == v.len() - 1);
                        lemma_touch_shape(v, v.len() - 1);
                    }
                    let _ = vram_lru_find(&mut self.vram_cache, back_graph_id);
                    vram_lru_replace_front(&mut self.vram_cache, entry);
                    proof {
                        assert(touch(v, v.len() - 1).drop_first() =~= v.drop_last());
                        lemma_reuse_slots(v, e);
                    }
                }
                VramFetch::Slot(next_vram_id)
            },
        }
    }
}

/// Start of video memory that background tiles are addressed from.
pub const VRAM_TILE_BASE: usize = 0x06000000;

/// Bytes between two tile bases a background control value can select.
pub const TILE_BASE_STEP: usize = 0x4000;


/// Tile base that the background control value `bg2cnt` selects: bits 2 to 5
/// count steps from `VRAM_TILE_BASE`.
pub open spec fn tile_base_spec(bg2cnt: u16) -> int {
    VRAM_TILE_BASE + (bg2cnt as int / 4) % 16 * TILE_BASE_STEP
}

/// Computes the tile base that the background control value `bg2cnt`
/// selects.
pub fn get_gb2_tile_base(bg2cnt: u16) -> (r: usize)
    ensures
        r == tile_base_spec(bg2cnt),
{
    let tile_offset: u16 = bg2cnt >> 2 & 0b1111;
    assert(tile_offset == (bg2cnt / 4) % 16) by (bit_vector)
        requires
            tile_offset == bg2cnt >> 2 & 0b1111u16,
    ;
    VRAM_TILE_BASE + tile_offset as usize * TILE_BASE_STEP
}

/// Compares the background control value `bg2cnt` with the copy kept in
/// `cur_bg2cnt`. When they differ the copy is updated, the two blank tiles at
/// the new tile base are zeroed, the slot cache is reset to just after them
/// (which zeroes the slots), and the tile base is returned; otherwise nothing
/// changes. `window` holds the bytes of video memory from the new tile base
/// on.
pub fn check_vram_and_reset(
    cur_bg2cnt: &mut u16,
    bg2cnt: u16,
    vram: &mut VRamFontLoader,
    window: &mut Vec<u8>,
) -> (r: Option<usize>)
    requires
        old(vram).wf(),
        old(vram).window_len() <= old(window)@.len(),
    ensures
        *old(cur_bg2cnt) == bg2cnt ==> r is None && *final(cur_bg2cnt) == bg2cnt && *final(vram)
            == *old(vram) && final(window)@ == old(window)@,
        *old(cur_bg2cnt) != bg2cnt ==> {
            &&& *final(cur_bg2cnt) == bg2cnt
            &&& r == Some(tile_base_spec(bg2cnt) as usize)
            &&& final(vram).wf()
            &&& final(vram)@ == Seq::<(u16, u16)>::empty()
            &&& final(vram).capacity_spec() == old(vram).capacity_spec()
            &&& final(vram).base_addr_spec() == tile_base_spec(bg2cnt) + RESERVED_TILE_BYTES
            &&& final(window)@ == overwrite(old(window)@, 0, zeros(old(vram).window_len() as int))
        },
{
    if *cur_bg2cnt == bg2cnt {
        return None;
    }
    let ghost orig = window@;
    *cur_bg2cnt = bg2cnt;
    let tile_base = get_gb2_tile_base(bg2cnt);
    fill_zero(window, 0, RESERVED_TILE_BYTES);
    vram.reset(tile_base + RESERVED_TILE_BYTES, window);
    assert(window@ =~= overwrite(orig, 0, zeros(old(vram).window_len() as int)));
    Some(tile_base)
}

/// Outcome of placing a character: the two tile numbers for its upper and
/// lower half, or the store read of its bitmap that must come first.
pub enum PlaceChar {
    Tiles(u16, u16),
    Load(StoreRead),
}

/// The fetch outcome that a place outcome stands for.
pub open spec fn fetch_of_place(r: PlaceChar) -> VramFetch {
    match r {
        PlaceChar::Tiles(upper, _lower) => VramFetch::Slot(((upper - 4) / 2) as u16),
        PlaceChar::Load(read) => VramFetch::Load(read),
    }
}

/// Places the character the host numbers `index` (two tile halves per
/// glyph): fetches glyph `index / 2` into the window and returns the tile
/// numbers of its slot, past the blank tiles and the tile base.
pub fn fontapi_place_char(
    vram: &mut VRamFontLoader,
    fonts: &mut FontLoader,
    window: &mut Vec<u8>,
    index: u16,
) -> (r: PlaceChar)
    requires
        old(vram).wf(),
        old(fonts).wf(),
        old(vram).window_len() <= old(window)@.len(),
    ensures
        VRamFontLoader::fetch_post(
            *old(vram),
            *final(vram),
            *old(fonts),
            *final(fonts),
            old(window)@,
            final(window)@,
            index / 2,
            fetch_of_place(r),
        ),
        r is Tiles ==> r->Tiles_0 >= 4 && (r->Tiles_0 - 4) % 2 == 0 && r->Tiles_1 == r->Tiles_0 + 1,
{
    match vram.fetch(fonts, window, index / 2) {
        VramFetch::Slot(slot) => {
            assert(slot < MAX_VRAM_SLOTS) by {
                let v = old(vram)@;
                let i = index_of(v, index / 2);
                lemma_index_of(v, (index / 2) as u16);
                if i >= 0 {
                    assert(v[i].1 < v.len());
                }
            }
            let upper = slot * 2 + 4;
            PlaceChar::Tiles(upper, upper + 1)
        },
        VramFetch::Load(read) => PlaceChar::Load(read),
    }
}

/// After a reset, a fetch that lands a glyph in the window puts it in slot 0.
pub proof fn lemma_fetch_after_reset_takes_slot_zero(
    pre: VRamFontLoader,
    post: VRamFontLoader,
    fonts_pre: FontLoader,
    fonts_post: FontLoader,
    window_pre: Seq<u8>,
    window_post: Seq<u8>,
    graph_id: u16,
    r: VramFetch,
)
    requires
        pre.wf(),
        pre@ == Seq::<(u16, u16)>::empty(),
        VRamFontLoader::fetch_post(
            pre,
            post,
            fonts_pre,
            fonts_post,
            window_pre,
            window_post,
            graph_id,
            r,
        ),
        r is Slot,
    ensures
        r->Slot_0 == 0,
{
}

/// A fetch that misses on a full window unmaps exactly one glyph, the least
/// recently used, and gives its slot to the new glyph; every other glyph keeps
/// its slot, and no two glyphs share one.
pub proof fn lemma_fetch_full_unmaps_back(
    pre: VRamFontLoader,
    post: VRamFontLoader,
    fonts_pre: FontLoader,
    fonts_post: FontLoader,
    window_pre: Seq<u8>,
    window_post: Seq<u8>,
    graph_id: u16,
    r: VramFetch,
)
    requires
        pre.wf(),
        pre@.len() == pre.capacity_spec(),
        index_of(pre@, graph_id) < 0,
        VRamFontLoader::fetch_post(
            pre,
            post,
            fonts_pre,
            fonts_post,
            window_pre,
            window_post,
            graph_id,
            r,
        ),
        r is Slot,
    ensures
        r->Slot_0 == pre@.last().1,
        post@.len() == pre@.len(),
        index_of(post@, graph_id) == 0,
        index_of(post@, pre@.last().0) < 0,
        forall|k: int|
            0 <= k < pre@.len() - 1 ==> post@[index_of(post@, #[trigger] pre@[k].0)] == pre@[k],
        slots_permute(post@),
{
    let v = pre@;
    let t = post@;
    lemma_insert_shape(v, (graph_id, v.last().1), pre.capacity_spec() as int);
    lemma_index_of(t, graph_id);
    lemma_index_of(t, v.last().0);
    if index_of(t, v.last().0) >= 0 {
        let j = index_of(t, v.last().0);
        if j > 0 {
            assert(t[j] == v[j - 1]);
            assert(v[j - 1].0 != v[v.len() - 1].0);
        }
        assert(v.last().0 != graph_id) by {
            lemma_index_of(v, graph_id);
        }
    }
    assert forall|k: int| 0 <= k < v.len() - 1 implies t[index_of(t, #[trigger] v[k].0)] == v[k] by {
        assert(t[k + 1] == v[k]);
        lemma_index_of_unique(t, k + 1);
    }
}

/// After `k` fetches of the distinct glyphs `ids` into a reset window, each
/// landing in the window, glyph `ids[j]` holds slot `j`, most recent first.
proof fn lemma_fetch_run_fills(
    loaders: Seq<VRamFontLoader>,
    fonts: Seq<FontLoader>,
    windows: Seq<Seq<u8>>,
    ids: Seq<u16>,
    results: Seq<VramFetch>,
    k: int,
)
    requires
        loaders.len() == ids.len() + 1,
        fonts.len() == ids.len() + 1,
        windows.len() == ids.len() + 1,
        results.len() == ids.len(),
        loaders[0].wf(),
        loaders[0]@ == Seq::<(u16, u16)>::empty(),
        forall|a: int, b: int| 0 <= a < ids.len() && 0 <= b < ids.len() && a != b ==> ids[a] != ids[b],
        forall|j: int|
            0 <= j < ids.len() ==> VRamFontLoader::fetch_post(
                loaders[j],
                #[trigger] loaders[j + 1],
                fonts[j],
                fonts[j + 1],
                windows[j],
                windows[j + 1],
                ids[j],
                results[j],
            ),
        forall|j: int| 0 <= j < ids.len() ==> #[trigger] results[j] is Slot,
        0 <= k <= ids.len(),
        k <= loaders[0].capacity_spec(),
    ensures
        loaders[k].wf(),
        loaders[k].capacity_spec() == loaders[0].capacity_spec(),
        loaders[k]@ == Seq::new(k as nat, |j: int| (ids[k - 1 - j], (k - 1 - j) as u16)),
        forall|j: int| 0 <= j < k ==> #[trigger] results[j] == VramFetch::Slot(j as u16),
    decreases k,
{
    if k > 0 {
        lemma_fetch_run_fills(loaders, fonts, windows, ids, results, k - 1);
        let v = loaders[k - 1]@;
        let id = ids[k - 1];
        assert(VRamFontLoader::fetch_post(
            loaders[k - 1],
            loaders[(k - 1) + 1],
            fonts[k - 1],
            fonts[(k - 1) + 1],
            windows[k - 1],
            windows[(k - 1) + 1],
            ids[k - 1],
            results[k - 1],
        ));
        assert(results[k - 1] is Slot);
        lemma_index_of(v, id);
        if index_of(v, id) >= 0 {
            let i = index_of(v, id);
            assert(v[i].0 == ids[k - 2 - i]);
        }
        assert(loaders[k]@ =~= Seq::new(k as nat, |j: int| (ids[k - 1 - j], (k - 1 - j) as u16)));
    }
}

/// After a reset, fetching one more distinct glyph than the window has slots,
/// each landing in the window: the first `capacity` glyphs take slots `0, 1,
/// ...` in turn, the last takes slot 0 from the first glyph, which alone
/// becomes unmapped, and no two mapped glyphs share a slot.
pub proof fn lemma_fetch_run_overflow(
    loaders: Seq<VRamFontLoader>,
    fonts: Seq<FontLoader>,
    windows: Seq<Seq<u8>>,
    ids: Seq<u16>,
    results: Seq<VramFetch>,
)
    requires
        ids.len() == loaders[0].capacity_spec() + 1,
        loaders.len() == ids.len() + 1,
        fonts.len() == ids.len() + 1,
        windows.len() == ids.len() + 1,
        results.len() == ids.len(),
        loaders[0].wf(),
        loaders[0]@ == Seq::<(u16, u16)>::empty(),
        forall|a: int, b: int| 0 <= a < ids.len() && 0 <= b < ids.len() && a != b ==> ids[a] != ids[b],
        forall|j: int|
            0 <= j < ids.len() ==> VRamFontLoader::fetch_post(
                loaders[j],
                #[trigger] loaders[j + 1],
                fonts[j],
                fonts[j + 1],
                windows[j],
                windows[j + 1],
                ids[j],
                results[j],
            ),
        forall|j: int| 0 <= j < ids.len() ==> #[trigger] results[j] is Slot,
    ensures
        forall|j: int| 0 <= j < ids.len() - 1 ==> #[trigger] results[j] == VramFetch::Slot(j as u16),
        results.last() == VramFetch::Slot(0),
        index_of(loaders.last()@, ids[0]) < 0,
        forall|j: int| 1 <= j < ids.len() ==> index_of(loaders.last()@, #[trigger] ids[j]) >= 0,
        slots_permute(loaders.last()@),
{
    let cap = loaders[0].capacity_spec() as int;
    lemma_fetch_run_fills(loaders, fonts, windows, ids, results, cap);
    let v = loaders[cap]@;
    assert(VRamFontLoader::fetch_post(
        loaders[cap],
        loaders[cap + 1],
        fonts[cap],
        fonts[cap + 1],
        windows[cap],
        windows[cap + 1],
        ids[cap],
        results[cap],
    ));
    assert(results[cap] is Slot);
    lemma_index_of(v, ids[cap]);
    if index_of(v, ids[cap]) >= 0 {
        let i = index_of(v, ids[cap]);
        assert(v[i].0 == ids[cap - 1 - i]);
    }
    lemma_fetch_full_unmaps_back(
        loaders[cap],
        loaders[cap + 1],
        fonts[cap],
        fonts[cap + 1],
        windows[cap],
        windows[cap + 1],
        ids[cap],
        results[cap],
    );
    let t = loaders[cap + 1]@;
    assert(v.last() == (ids[0], 0u16));
    assert forall|j: int| 1 <= j < ids.len() implies index_of(t, #[trigger] ids[j]) >= 0 by {
        if j == cap {
            assert(index_of(t, ids[cap]) == 0);
        } else {
            let k = cap - 1 - j;
            assert(v[k].0 == ids[j]);
            lemma_insert_shape(v, (ids[cap], v.last().1), cap);
            assert(t[k + 1] == v[k]);
            lemma_index_of(t, ids[j]);
        }
    }
}

impl Default for VRamFontLoader {
    /// An empty cache of `DEFAULT_VRAM_SLOTS` slots, the first at address 0.
    fn default() -> (r: VRamFontLoader)
        ensures
            r.wf(),
            r@ == Seq::<(u16, u16)>::empty(),
            r.capacity_spec() == DEFAULT_VRAM_SLOTS,
            r.base_addr_spec() == 0,
    {
        VRamFontLoader::new(DEFAULT_VRAM_SLOTS, 0)
    }
}

} // verus!
