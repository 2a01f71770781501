use fontapi::font::{get_font_graph_id_by_addr, FontCache, FontId, FontLoader, GraphLookup};
use fontapi::vram_font::{VRamFontLoader, VramFetch};

/// A bitmap store in memory that counts the reads it serves.
struct CountingStore {
    data: Vec<u8>,
    reads: usize,
}

impl CountingStore {
    fn new(records: usize, record_size: usize) -> Self {
        let data = (0..records * record_size).map(|i| (i / record_size) as u8 ^ (i as u8)).collect();
        CountingStore { data, reads: 0 }
    }

    fn read(&mut self, offset: usize, len: usize) -> Vec<u8> {
        self.reads += 1;
        self.data[offset..offset + len].to_vec()
    }
}

fn get(cache: &mut FontCache, store: &mut CountingStore, id: u16) -> Vec<u8> {
    match cache.lookup(id) {
        GraphLookup::Cached(data) => data,
        GraphLookup::Load(read) => {
            let data = store.read(read.offset, read.len);
            cache.insert(id, data.clone());
            data
        }
    }
}

fn fetch(
    vram: &mut VRamFontLoader,
    fonts: &mut FontLoader,
    window: &mut Vec<u8>,
    store: &mut CountingStore,
    id: u16,
) -> u16 {
    loop {
        match vram.fetch(fonts, window, id) {
            VramFetch::Slot(slot) => return slot,
            VramFetch::Load(read) => {
                let data = store.read(read.offset, read.len);
                fonts.font2_cache.insert(id, data);
            }
        }
    }
}

#[test]
fn bitmap_cache_evicts_first_inserted() {
    let mut cache = FontCache::new(0x40);
    let mut store = CountingStore::new(300, 0x40);
    for id in 0u16..257 {
        let data = get(&mut cache, &mut store, id);
        assert_eq!(data, store.data[id as usize * 0x40..(id as usize + 1) * 0x40].to_vec());
    }
    assert_eq!(store.reads, 257);
    for id in (1u16..257).rev() {
        assert!(matches!(cache.lookup(id), GraphLookup::Cached(_)));
    }
    match cache.lookup(0) {
        GraphLookup::Load(read) => {
            assert_eq!(read.offset, 0);
            assert_eq!(read.len, 0x40);
        }
        GraphLookup::Cached(_) => panic!("glyph 0 should have been evicted"),
    }
}

#[test]
fn bitmap_cache_hit_reads_nothing() {
    let mut cache = FontCache::new(0x80);
    let mut store = CountingStore::new(10, 0x80);
    let first = get(&mut cache, &mut store, 7);
    assert_eq!(store.reads, 1);
    let again = get(&mut cache, &mut store, 7);
    assert_eq!(store.reads, 1);
    assert_eq!(first, again);
    assert_eq!(first, store.data[7 * 0x80..8 * 0x80].to_vec());
}

#[test]
fn bitmap_miss_names_offset() {
    let mut cache = FontCache::new(0x80);
    match cache.lookup(3) {
        GraphLookup::Load(read) => {
            assert_eq!(read.offset, 3 * 0x80);
            assert_eq!(read.len, 0x80);
        }
        GraphLookup::Cached(_) => panic!("empty cache hit"),
    }
}

#[test]
fn font_loader_dispatches_by_font() {
    let mut fonts = FontLoader::new();
    fonts.font3_cache.insert(5, vec![9; 0x80]);
    assert!(matches!(fonts.get_graph(5, FontId::Font1), GraphLookup::Load(_)));
    match fonts.get_graph(5, FontId::Font3) {
        GraphLookup::Cached(data) => assert_eq!(data, vec![9; 0x80]),
        GraphLookup::Load(_) => panic!("font 3 holds glyph 5"),
    }
    fonts.font3_width_cache.insert(5, vec![11]);
    match fonts.get_graph_font3_width(5) {
        GraphLookup::Cached(data) => assert_eq!(data, vec![11]),
        GraphLookup::Load(_) => panic!("width of glyph 5 is cached"),
    }
}

#[test]
fn font_table_addresses() {
    assert_eq!(get_font_graph_id_by_addr(0x020B7898), Some((FontId::Font1, 0)));
    assert_eq!(get_font_graph_id_by_addr(0x020B7898 + 0x40 * 3 + 5), Some((FontId::Font1, 3)));
    assert_eq!(get_font_graph_id_by_addr(0x020C0098 + 0x40), Some((FontId::Font2, 1)));
    assert_eq!(get_font_graph_id_by_addr(0x020C8898 + 0x80 * 0x1E2), Some((FontId::Font3, 0x1E2)));
    assert_eq!(get_font_graph_id_by_addr(0x020C8898 + 0x80 * 0x1E3), None);
    assert_eq!(get_font_graph_id_by_addr(0), None);
}

#[test]
fn vram_first_fetch_after_reset_is_slot_zero() {
    let mut vram = VRamFontLoader::new(192, 0x0600C040);
    let mut fonts = FontLoader::new();
    let mut store = CountingStore::new(600, 0x40);
    let mut window = vec![0x55; 0x80 + 192 * 0x40];
    vram.reset(0x0600C040, &mut window);
    assert!(window[..0x80].iter().all(|&b| b == 0x55));
    assert!(window[0x80..].iter().all(|&b| b == 0));
    assert_eq!(fetch(&mut vram, &mut fonts, &mut window, &mut store, 513), 0);
    assert_eq!(&window[0x80..0xC0], &store.data[513 * 0x40..514 * 0x40]);
    vram.reset(0x06010000, &mut window);
    assert_eq!(vram.vram_base_addr(), 0x06010000);
    assert_eq!(fetch(&mut vram, &mut fonts, &mut window, &mut store, 9), 0);
}

#[test]
fn vram_two_slots_reuse_least_recent() {
    let mut vram = VRamFontLoader::new(2, 0);
    let mut fonts = FontLoader::new();
    let mut store = CountingStore::new(8, 0x40);
    let mut window = vec![0; 0x80 + 2 * 0x40];
    let (a, b, c) = (1u16, 2u16, 3u16);
    assert_eq!(fetch(&mut vram, &mut fonts, &mut window, &mut store, a), 0);
    assert_eq!(fetch(&mut vram, &mut fonts, &mut window, &mut store, b), 1);
    assert_eq!(fetch(&mut vram, &mut fonts, &mut window, &mut store, a), 0);
    assert_eq!(fetch(&mut vram, &mut fonts, &mut window, &mut store, c), 1);
    assert_eq!(&window[0xC0..], &store.data[3 * 0x40..4 * 0x40]);
    // b lost its slot to c; fetching it again copies it into the slot of a,
    // now the least recently used
    assert_eq!(fetch(&mut vram, &mut fonts, &mut window, &mut store, b), 0);
    assert_eq!(&window[0x80..0xC0], &store.data[2 * 0x40..3 * 0x40]);
    assert_eq!(fetch(&mut vram, &mut fonts, &mut window, &mut store, c), 1);
}

#[test]
fn vram_full_cache_unmaps_one_glyph() {
    let mut vram = VRamFontLoader::new(4, 0);
    let mut fonts = FontLoader::new();
    let mut store = CountingStore::new(16, 0x40);
    let mut window = vec![0; 0x80 + 4 * 0x40];
    for id in 0u16..4 {
        assert_eq!(fetch(&mut vram, &mut fonts, &mut window, &mut store, id), id);
    }
    assert_eq!(fetch(&mut vram, &mut fonts, &mut window, &mut store, 10), 0);
    let reads = store.reads;
    for id in [1u16, 2, 3, 10] {
        fetch(&mut vram, &mut fonts, &mut window, &mut store, id);
    }
    assert_eq!(store.reads, reads);
}

#[test]
fn loader_insert_graph_targets_one_font() {
    let mut fonts = FontLoader::default();
    match fonts.get_graph(0x1E0, FontId::Font1) {
        GraphLookup::Load(read) => {
            assert_eq!(read.graph_id, 0x1E0);
            assert_eq!(read.offset, 0x1E0 * 0x40);
            fonts.insert_graph(read.graph_id, FontId::Font1, vec![4; read.len]);
        }
        GraphLookup::Cached(_) => panic!("empty loader hit"),
    }
    assert!(matches!(fonts.get_graph_font1(0x1E0), GraphLookup::Cached(_)));
    assert!(matches!(fonts.get_graph_font2(0x1E0), GraphLookup::Load(_)));
    assert!(matches!(fonts.get_graph_font3(0x1E0), GraphLookup::Load(_)));
}

#[test]
fn vram_default_has_default_slots() {
    let vram = VRamFontLoader::default();
    assert_eq!(vram.capacity(), 128);
    assert_eq!(vram.vram_base_addr(), 0);
}

#[test]
fn vram_miss_names_glyph_to_load() {
    let mut vram = VRamFontLoader::new(3, 0);
    let mut fonts = FontLoader::new();
    let mut window = vec![0; 0x80 + 3 * 0x40];
    match vram.fetch(&mut fonts, &mut window, 0x77) {
        VramFetch::Load(read) => {
            assert_eq!(read.graph_id, 0x77);
            assert_eq!((read.offset, read.len), (0x77 * 0x40, 0x40));
        }
        VramFetch::Slot(_) => panic!("nothing is cached"),
    }
    assert!(window.iter().all(|&b| b == 0));
}
