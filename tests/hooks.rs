use fontapi::editor::{fontapi_sub_2002E0C_hook, fontapi_sub_217BBC8_hook};
use fontapi::font::{FontId, FontLoader, GraphLookup};
use fontapi::game::{
    fontapi_get_font_graph_addr, fontapi_move_draw_cursor, fontapi_read_script,
    fontapi_read_script_font, fontapi_read_script_font_1, fontapi_read_script_font_3, FontRead,
    GameCtx, GraphAddr, InitData,
};
use fontapi::script::LINE_BREAK;
use fontapi::vram_font::{
    check_vram_and_reset, fontapi_place_char, get_gb2_tile_base, PlaceChar, VRamFontLoader,
};

fn ctx(script: Vec<u8>, font_addr: usize) -> GameCtx {
    GameCtx {
        script_data: script,
        script_pos: 0,
        script_addr: 0x0210_0000,
        font_addr,
        char_code: 0,
        draw_cursor: 0,
        render_method: 0,
    }
}

#[test]
fn read_script_advances_by_width() {
    let mut c = ctx(vec![0xD1, 0x02, 0xE9, 0xE6], 0);
    assert_eq!(fontapi_read_script(&mut c), 0xE4 + 0x02 + 0xD0);
    assert_eq!(c.script_pos, 2);
    assert_eq!(c.get_char_code(), 0xE4 + 0x02 + 0xD0);
    assert_eq!(fontapi_read_script(&mut c), LINE_BREAK);
    assert_eq!(c.script_pos, 3);
}

#[test]
fn read_script_font_without_font_reads_only() {
    let mut fonts = FontLoader::new();
    let mut c = ctx(vec![0x41, 0xE6], 0x1000);
    assert!(matches!(fontapi_read_script_font(&mut c, &mut fonts), FontRead::NoFont));
    assert_eq!(c.char_code, 0x41);
    assert_eq!(c.script_pos, 1);
}

#[test]
fn read_script_font_loads_then_reads() {
    let mut fonts = FontLoader::new();
    let mut c = ctx(vec![0x41, 0xE6], 0x020C0098);
    match fontapi_read_script_font(&mut c, &mut fonts) {
        FontRead::Load(font, read) => {
            assert_eq!(font, FontId::Font2);
            assert_eq!(read.offset, 0x41 * 0x40);
            assert_eq!(read.len, 0x40);
        }
        _ => panic!("the bitmap is not cached yet"),
    }
    assert_eq!(c.script_pos, 0);
    fonts.font2_cache.insert(0x41, vec![3; 0x40]);
    match fontapi_read_script_font(&mut c, &mut fonts) {
        FontRead::Graph(font, data) => {
            assert_eq!(font, FontId::Font2);
            assert_eq!(data, vec![3; 0x40]);
        }
        _ => panic!("the bitmap is cached"),
    }
    assert_eq!(c.script_pos, 1);
    assert_eq!(c.char_code, 0x41);
}

#[test]
fn read_script_font_variants_pick_fonts() {
    let mut fonts = FontLoader::new();
    fonts.font2_cache.insert(0x10, vec![2; 0x40]);
    fonts.font3_cache.insert(0x10, vec![3; 0x80]);
    let mut c = ctx(vec![0x10, 0x10, 0xE6], 0);
    assert!(matches!(fontapi_read_script_font_1(&mut c, &mut fonts), FontRead::Graph(FontId::Font2, _)));
    assert!(matches!(fontapi_read_script_font_3(&mut c, &mut fonts), FontRead::Graph(FontId::Font3, _)));
    assert_eq!(c.script_pos, 2);
}

#[test]
fn draw_cursor_fixed_by_render_method() {
    let mut fonts = FontLoader::new();
    let mut c = ctx(vec![0xE6], 0);
    c.render_method = 0x600;
    assert!(fontapi_move_draw_cursor(&mut c, &mut fonts).is_none());
    assert_eq!(c.draw_cursor, 44);
}

#[test]
fn draw_cursor_fixed_in_buffer() {
    let mut fonts = FontLoader::new();
    let mut c = ctx(vec![0x41, 0xE6], 0);
    c.script_addr = 0x20F75A8 + 0x20;
    c.script_pos = 1;
    assert!(fontapi_move_draw_cursor(&mut c, &mut fonts).is_none());
    assert_eq!(c.draw_cursor, 44);
}

#[test]
fn draw_cursor_uses_width_table() {
    let mut fonts = FontLoader::new();
    let mut c = ctx(vec![0xE6], 0);
    c.char_code = 0x123;
    let read = fontapi_move_draw_cursor(&mut c, &mut fonts).expect("width not cached");
    assert_eq!((read.offset, read.len), (0x123, 1));
    assert_eq!(c.draw_cursor, 0);
    fonts.font3_width_cache.insert(0x123, vec![7]);
    assert!(fontapi_move_draw_cursor(&mut c, &mut fonts).is_none());
    assert_eq!(c.draw_cursor, 28);
}

#[test]
fn draw_cursor_wraps() {
    let mut c = ctx(vec![0xE6], 0);
    c.draw_cursor = i16::MAX;
    c.move_draw_cursor(1);
    assert_eq!(c.draw_cursor, i16::MIN + 3);
}

#[test]
fn graph_addr_by_font_number() {
    let init = InitData { font1_pos: 0x1000, font2_pos: 0x2000, font3_pos: 0x3000, font3_graph_amount: 9 };
    assert_eq!(init.font3_graph_amount(), 9);
    let mut fonts = FontLoader::new();
    fonts.font3_cache.insert(4, vec![1; 0x80]);
    match fontapi_get_font_graph_addr(&init, &mut fonts, 4, 0) {
        GraphAddr::Place { font, addr, graph_data } => {
            assert_eq!(font, FontId::Font3);
            assert_eq!(addr, 0x3080);
            assert_eq!(graph_data, vec![1; 0x80]);
        }
        _ => panic!("glyph 4 of the third font is cached"),
    }
    match fontapi_get_font_graph_addr(&init, &mut fonts, 4, 1) {
        GraphAddr::Load(font, read) => {
            assert_eq!(font, FontId::Font1);
            assert_eq!((read.offset, read.len), (4 * 0x40, 0x40));
        }
        _ => panic!("glyph 4 of the first font is not cached"),
    }
    assert!(matches!(fontapi_get_font_graph_addr(&init, &mut fonts, 4, 3), GraphAddr::Null));
    assert!(matches!(fonts.get_graph(4, FontId::Font2), GraphLookup::Load(_)));
}

#[test]
fn tile_base_from_control_value() {
    assert_eq!(get_gb2_tile_base(0x0000), 0x0600_0000);
    assert_eq!(get_gb2_tile_base(0x0355), 0x0600_0000 + 5 * 0x4000);
    assert_eq!(get_gb2_tile_base(0x034D), 0x0600_0000 + 3 * 0x4000);
    assert_eq!(get_gb2_tile_base(0xFFFF), 0x0600_0000 + 15 * 0x4000);
}

#[test]
fn vram_reset_on_control_change() {
    let mut vram = VRamFontLoader::new(2, 0);
    let mut fonts = FontLoader::new();
    let mut window = vec![9; 0x80 + 2 * 0x40 + 4];
    let mut shadow: u16 = 0;
    assert_eq!(check_vram_and_reset(&mut shadow, 0x0355, &mut vram, &mut window), Some(0x0601_4000));
    assert_eq!(shadow, 0x0355);
    assert_eq!(vram.vram_base_addr(), 0x0601_4080);
    assert_eq!(&window[..0x100], &[0; 0x100]);
    assert_eq!(&window[0x100..], &[9; 4]);
    fonts.font2_cache.insert(8, vec![5; 0x40]);
    assert!(matches!(fontapi_place_char(&mut vram, &mut fonts, &mut window, 17), PlaceChar::Tiles(4, 5)));
    assert_eq!(check_vram_and_reset(&mut shadow, 0x0355, &mut vram, &mut window), None);
    assert_eq!(&window[0x80..0xC0], &[5; 0x40]);
    assert_eq!(&window[..0x80], &[0; 0x80]);
}

#[test]
fn place_char_tiles_follow_slots() {
    let mut vram = VRamFontLoader::new(4, 0);
    let mut fonts = FontLoader::new();
    let mut window = vec![0; 0x80 + 4 * 0x40];
    match fontapi_place_char(&mut vram, &mut fonts, &mut window, 6) {
        PlaceChar::Load(read) => assert_eq!((read.offset, read.len), (3 * 0x40, 0x40)),
        PlaceChar::Tiles(..) => panic!("glyph 3 is not cached"),
    }
    fonts.font2_cache.insert(3, vec![1; 0x40]);
    fonts.font2_cache.insert(4, vec![2; 0x40]);
    assert!(matches!(fontapi_place_char(&mut vram, &mut fonts, &mut window, 6), PlaceChar::Tiles(4, 5)));
    assert!(matches!(fontapi_place_char(&mut vram, &mut fonts, &mut window, 9), PlaceChar::Tiles(6, 7)));
    assert!(matches!(fontapi_place_char(&mut vram, &mut fonts, &mut window, 7), PlaceChar::Tiles(4, 5)));
}

#[test]
fn copy_limited_characters() {
    let src = [0x41, 0xD0, 0x10, 0x42, 0xE6];
    let mut dest = vec![0xEE; 8];
    assert_eq!(fontapi_sub_217BBC8_hook(&mut dest, 1, &src, 2), 4);
    assert_eq!(dest, vec![0xEE, 0x41, 0xD0, 0x10, 0xEE, 0xEE, 0xEE, 0xEE]);
    let mut dest = vec![0xEE; 8];
    assert_eq!(fontapi_sub_217BBC8_hook(&mut dest, 0, &src, 10), 4);
    assert_eq!(dest, vec![0x41, 0xD0, 0x10, 0x42, 0xEE, 0xEE, 0xEE, 0xEE]);
}

#[test]
fn bounded_copy_reaches_terminator() {
    let src = [0x41, 0xD0, 0x10, 0x42, 0xE6, 0x99];
    let mut dest = vec![0xEE; 7];
    assert_eq!(fontapi_sub_2002E0C_hook(&mut dest, &src, 5), 4);
    assert_eq!(dest, vec![0x41, 0xD0, 0x10, 0x42, 0xE6, 0xEE, 0xEE]);
}

#[test]
fn bounded_copy_overflows() {
    let src = [0x41, 0x42, 0x43, 0xE6];
    let mut dest = vec![0xEE; 4];
    assert_eq!(fontapi_sub_2002E0C_hook(&mut dest, &src, 2), 1);
    assert_eq!(dest, vec![0xE6, 0x42, 0xEE, 0xEE]);
}

#[test]
fn script_cursor_moves_both_ways() {
    let mut c = ctx(vec![0x41, 0x42, 0x43, 0xE6], 0);
    c.move_script_data(3);
    assert_eq!(c.script_pos, 3);
    c.move_script_data(-2);
    assert_eq!(c.script_pos, 1);
    c.set_char_code(0x99);
    assert_eq!(c.get_char_code(), 0x99);
    assert_eq!(c.get_render_method(), 0);
    assert_eq!(c.get_font_id(), None);
    c.font_addr = 0x020C8898 + 0x80;
    assert_eq!(c.get_font_id(), Some(FontId::Font3));
}
