//! The host's text-drawing state that the glyph hooks read and update.
use vstd::prelude::*;

use crate::font::{
    font_graph_of_addr, get_font_graph_id_by_addr, FontCache, FontId, FontLoader, GraphLookup,
    StoreRead,
};
use crate::lru::{index_of, lemma_index_of};
use crate::script::{decode_at, decode_script_at, decode_width};

verus! {

/// A snapshot of the host's text-drawing state: the script being read and
/// the cursor into it, the address of the active font table, the last
/// decoded glyph id, the horizontal draw cursor and the render method.
pub struct GameCtx {
    pub script_data: Vec<u8>,
    pub script_pos: usize,
    pub script_addr: usize,
    pub font_addr: usize,
    pub char_code: u16,
    pub draw_cursor: i16,
    pub render_method: u32,
}

impl GameCtx {
    /// The font whose table holds the active font address, if any.
    pub fn get_font_id(&self) -> (r: Option<FontId>)
        ensures
            match font_graph_of_addr(self.font_addr as int) {
                Some((font_id, _index)) => r == Some(font_id),
                None => r is None,
            },
    {
        match get_font_graph_id_by_addr(self.font_addr) {
            Some((font_id, _index)) => Some(font_id),
            None => None,
        }
    }

    /// The last decoded glyph id.
    pub fn get_char_code(&self) -> (r: u16)
        ensures
            r == self.char_code,
    {
        self.char_code
    }

    /// Records `code` as the last decoded glyph id.
    pub fn set_char_code(&mut self, code: u16)
        ensures
            *final(self) == (GameCtx { char_code: code, ..*old(self) }),
    {
        self.char_code = code;
    }

    /// The render method the host draws with.
    pub fn get_render_method(&self) -> (r: u32)
        ensures
            r == self.render_method,
    {
        self.render_method
    }

    /// Moves the script cursor by `offset` bytes.
    pub fn move_script_data(&mut self, offset: isize)
        requires
            0 <= old(self).script_pos + offset <= old(self).script_data@.len(),
        ensures
            *final(self) == (GameCtx { script_pos: (old(self).script_pos + offset) as usize, ..*old(self) }),
    {
        let _len = self.script_data.len();
        if offset >= 0 {
            self.script_pos = self.script_pos + offset as usize;
        } else {
            let back: usize = (0 - (offset as i128)) as usize;
            self.script_pos = self.script_pos - back;
        }
    }

    /// Moves the draw cursor right by `x` pixels, in the host's quarter-pixel
    /// units and with its 16-bit wrap-around.
    pub fn move_draw_cursor(&mut self, x: i16)
        ensures
            *final(self) == (GameCtx {
                draw_cursor: vstd::wrapping::i16_specs::wrapping_add(
                    old(self).draw_cursor,
                    vstd::wrapping::i16_specs::wrapping_mul(x, 4),
                ),
                ..*old(self)
            }),
    {
        self.draw_cursor = self.draw_cursor.wrapping_add(x.wrapping_mul(4));
    }
}

/// Reads the character at the script cursor: records its glyph id as the last
/// decoded one and moves the cursor past it. Returns the glyph id.
pub fn fontapi_read_script(game_ctx: &mut GameCtx) -> (r: u16)
    requires
        old(game_ctx).script_pos < old(game_ctx).script_data@.len(),
        old(game_ctx).script_pos + decode_width(
            old(game_ctx).script_data@[old(game_ctx).script_pos as int],
        ) <= old(game_ctx).script_data@.len(),
    ensures
        r == decode_at(old(game_ctx).script_data@, old(game_ctx).script_pos as int).0,
        *final(game_ctx) == (GameCtx {
            char_code: r,
            script_pos: (old(game_ctx).script_pos + decode_width(
                old(game_ctx).script_data@[old(game_ctx).script_pos as int],
            )) as usize,
            ..*old(game_ctx)
        }),
{
    let (code, is_double_encode) = decode_script_at(&game_ctx.script_data, game_ctx.script_pos);
    game_ctx.set_char_code(code);
    game_ctx.move_script_data(if is_double_encode { 2 } else { 1 });
    code
}

/// Addresses of the host's glyph buffers of the three fonts, handed over at
/// start-up, and the number of glyphs of the third font.
#[derive(Debug, Clone, Copy, Default)]
pub struct InitData {
    pub font1_pos: usize,
    pub font2_pos: usize,
    pub font3_pos: usize,
    pub font3_graph_amount: usize,
}

impl InitData {
    /// Number of glyphs of the third font.
    pub fn font3_graph_amount(&self) -> (r: usize)
        ensures
            r == self.font3_graph_amount,
    {
        self.font3_graph_amount
    }
}

/// Outcome of reading one character together with its bitmap: the bitmap of
/// the glyph in the given font, no bitmap when the host's font address names
/// no font, or the store read that must come first.
pub enum FontRead {
    Graph(FontId, Vec<u8>),
    NoFont,
    Load(FontId, StoreRead),
}

/// Whether the script cursor of `ctx` rests on a whole character.
pub open spec fn at_char(ctx: GameCtx) -> bool {
    &&& ctx.script_pos < ctx.script_data@.len()
    &&& ctx.script_pos + decode_width(ctx.script_data@[ctx.script_pos as int])
        <= ctx.script_data@.len()
}

/// `ctx` after its character has been read: the glyph id recorded and the
/// cursor moved past the character.
pub open spec fn after_read(ctx: GameCtx) -> GameCtx {
    GameCtx {
        char_code: decode_at(ctx.script_data@, ctx.script_pos as int).0,
        script_pos: (ctx.script_pos + decode_width(ctx.script_data@[ctx.script_pos as int])) as usize,
        ..ctx
    }
}

/// What reading the character at the cursor with the bitmap of `font_id`
/// leaves and returns: on a hit the character is read and its bitmap
/// returned; on a miss nothing is read and the store read is returned.
pub open spec fn read_graph_post(
    ctx_pre: GameCtx,
    ctx_post: GameCtx,
    fonts_pre: FontLoader,
    fonts_post: FontLoader,
    font_id: FontId,
    r: FontRead,
) -> bool {
    let code = decode_at(ctx_pre.script_data@, ctx_pre.script_pos as int).0;
    let cache_pre = fonts_pre.cache_of(font_id);
    let cache_post = fonts_post.cache_of(font_id);
    &&& fonts_post.wf()
    &&& !(r is NoFont)
    &&& r is Graph ==> FontCache::lookup_post(
        cache_pre,
        cache_post,
        code,
        GraphLookup::Cached(r->Graph_1),
    )
    &&& r is Load ==> FontCache::lookup_post(cache_pre, cache_post, code, GraphLookup::Load(r->Load_1))
    &&& forall|f: FontId| f != font_id ==> fonts_post.cache_of(f) == fonts_pre.cache_of(f)
    &&& fonts_post.font3_width_cache == fonts_pre.font3_width_cache
    &&& r is Graph ==> r->Graph_0 == font_id && ctx_post == after_read(ctx_pre)
    &&& r is Load ==> r->Load_0 == font_id && ctx_post == ctx_pre
}

/// Reads the character at the cursor together with its bitmap in `font_id`;
/// see `read_graph_post`.
pub fn read_script_graph(game_ctx: &mut GameCtx, fonts: &mut FontLoader, font_id: FontId) -> (r:
    FontRead)
    requires
        at_char(*old(game_ctx)),
        old(fonts).wf(),
    ensures
        read_graph_post(*old(game_ctx), *final(game_ctx), *old(fonts), *final(fonts), font_id, r),
{
    let (code, _is_double_encode) = decode_script_at(&game_ctx.script_data, game_ctx.script_pos);
    match fonts.get_graph(code, font_id) {
        GraphLookup::Cached(graph) => {
            fontapi_read_script(game_ctx);
            FontRead::Graph(font_id, graph)
        },
        GraphLookup::Load(read) => FontRead::Load(font_id, read),
    }
}

/// Reads the character at the cursor with its bitmap in the font that the
/// host's font address names; when it names none, only the character is
/// read.
pub fn fontapi_read_script_font(game_ctx: &mut GameCtx, fonts: &mut FontLoader) -> (r: FontRead)
    requires
        at_char(*old(game_ctx)),
        old(fonts).wf(),
    ensures
        match font_graph_of_addr(old(game_ctx).font_addr as int) {
            Some((font_id, _index)) => read_graph_post(
                *old(game_ctx),
                *final(game_ctx),
                *old(fonts),
                *final(fonts),
                font_id,
                r,
            ),
            None => r is NoFont && *final(game_ctx) == after_read(*old(game_ctx)) && *final(fonts)
                == *old(fonts),
        },
{
    match game_ctx.get_font_id() {
        Some(font_id) => read_script_graph(game_ctx, fonts, font_id),
        None => {
            fontapi_read_script(game_ctx);
            FontRead::NoFont
        },
    }
}

/// Reads the character at the cursor with its bitmap in the second font,
/// for the host's first-font buffer.
pub fn fontapi_read_script_font_1(game_ctx: &mut GameCtx, fonts: &mut FontLoader) -> (r: FontRead)
    requires
        at_char(*old(game_ctx)),
        old(fonts).wf(),
    ensures
        read_graph_post(*old(game_ctx), *final(game_ctx), *old(fonts), *final(fonts), FontId::Font2, r),
{
    read_script_graph(game_ctx, fonts, FontId::Font2)
}

/// Reads the character at the cursor with its bitmap in the second font.
pub fn fontapi_read_script_font_2(game_ctx: &mut GameCtx, fonts: &mut FontLoader) -> (r: FontRead)
    requires
        at_char(*old(game_ctx)),
        old(fonts).wf(),
    ensures
        read_graph_post(*old(game_ctx), *final(game_ctx), *old(fonts), *final(fonts), FontId::Font2, r),
{
    read_script_graph(game_ctx, fonts, FontId::Font2)
}

/// Reads the character at the cursor with its bitmap in the third font.
pub fn fontapi_read_script_font_3(game_ctx: &mut GameCtx, fonts: &mut FontLoader) -> (r: FontRead)
    requires
        at_char(*old(game_ctx)),
        old(fonts).wf(),
    ensures
        read_graph_post(*old(game_ctx), *final(game_ctx), *old(fonts), *final(fonts), FontId::Font3, r),
{
    read_script_graph(game_ctx, fonts, FontId::Font3)
}

/// Reads the character at the cursor with its bitmap in the third font, for
/// text drawn at a fixed width (the draw cursor is left to the host).
pub fn fontapi_read_script_font_3_fixed_width(game_ctx: &mut GameCtx, fonts: &mut FontLoader) -> (r:
    FontRead)
    requires
        at_char(*old(game_ctx)),
        old(fonts).wf(),
    ensures
        read_graph_post(*old(game_ctx), *final(game_ctx), *old(fonts), *final(fonts), FontId::Font3, r),
{
    read_script_graph(game_ctx, fonts, FontId::Font3)
}

/// Advance, in pixels, of text drawn at a fixed width.
pub const FIXED_ADVANCE: i16 = 11;

/// Render methods that draw at a fixed width.
pub const FIXED_RENDER_METHOD_A: u32 = 0x400;

/// Render methods that draw at a fixed width.
pub const FIXED_RENDER_METHOD_B: u32 = 0x600;

/// Host address of the script buffer whose text is drawn at a fixed width.
pub const FIXED_WIDTH_BUFFER_START: usize = 0x20F75A8;

/// Byte length of the script buffer whose text is drawn at a fixed width.
pub const FIXED_WIDTH_BUFFER_LEN: usize = 0x90;

/// `ctx` with its draw cursor moved right by `x` pixels.
pub open spec fn moved_by(ctx: GameCtx, x: i16) -> GameCtx {
    GameCtx {
        draw_cursor: vstd::wrapping::i16_specs::wrapping_add(
            ctx.draw_cursor,
            vstd::wrapping::i16_specs::wrapping_mul(x, 4),
        ),
        ..ctx
    }
}

/// Whether the character at the cursor of `ctx` is drawn at a fixed width:
/// by the render method, or because the script lies in the fixed-width
/// buffer.
pub open spec fn fixed_width(ctx: GameCtx) -> bool {
    let addr = ctx.script_addr as int + ctx.script_pos as int;
    ||| ctx.render_method == FIXED_RENDER_METHOD_A
    ||| ctx.render_method == FIXED_RENDER_METHOD_B
    ||| FIXED_WIDTH_BUFFER_START <= addr < FIXED_WIDTH_BUFFER_START + FIXED_WIDTH_BUFFER_LEN
}

/// Moves the draw cursor past the last decoded glyph: by `FIXED_ADVANCE` for
/// fixed-width text, otherwise by the glyph's advance width in the third
/// font. When that width is not cached, nothing moves and the store read of
/// the width is returned.
pub fn fontapi_move_draw_cursor(game_ctx: &mut GameCtx, fonts: &mut FontLoader) -> (r: Option<
    StoreRead,
>)
    requires
        old(fonts).wf(),
    ensures
        fonts_unchanged_but_width(*old(fonts), *final(fonts)),
        fixed_width(*old(game_ctx)) ==> r is None && *final(game_ctx) == moved_by(
            *old(game_ctx),
            FIXED_ADVANCE,
        ) && *final(fonts) == *old(fonts),
        !fixed_width(*old(game_ctx)) ==> ({
            let widths = old(fonts).font3_width_cache@;
            let i = index_of(widths, old(game_ctx).char_code);
            &&& i >= 0 ==> r is None && *final(game_ctx) == moved_by(
                *old(game_ctx),
                widths[i].1[0] as i16,
            ) && final(fonts).font3_width_cache@ == crate::lru::touch(widths, i)
            &&& i < 0 ==> r == Some(
                StoreRead {
                    graph_id: old(game_ctx).char_code,
                    offset: old(game_ctx).char_code as usize,
                    len: 1,
                },
            ) && *final(game_ctx) == *old(game_ctx) && final(fonts).font3_width_cache@ == widths
        }),
{
    let method = game_ctx.get_render_method();
    if method == FIXED_RENDER_METHOD_A || method == FIXED_RENDER_METHOD_B {
        game_ctx.move_draw_cursor(FIXED_ADVANCE);
        return None;
    }
    let in_buffer = match game_ctx.script_addr.checked_add(game_ctx.script_pos) {
        Some(addr) => FIXED_WIDTH_BUFFER_START <= addr && addr < FIXED_WIDTH_BUFFER_START
            + FIXED_WIDTH_BUFFER_LEN,
        None => false,
    };
    if in_buffer {
        game_ctx.move_draw_cursor(FIXED_ADVANCE);
        return None;
    }
    let ghost widths = fonts.font3_width_cache@;
    proof {
        lemma_index_of(widths, game_ctx.char_code);
    }
    match fonts.get_graph_font3_width(game_ctx.get_char_code()) {
        GraphLookup::Cached(width) => {
            proof {
                let i = index_of(widths, game_ctx.char_code);
                assert(widths[i].1.len() == 1);
            }
            game_ctx.move_draw_cursor(width[0] as i16);
            None
        },
        GraphLookup::Load(read) => Some(read),
    }
}

/// `post` differs from `pre` at most in the width cache, and is well formed.
pub open spec fn fonts_unchanged_but_width(pre: FontLoader, post: FontLoader) -> bool {
    &&& post.wf()
    &&& post.font1_cache == pre.font1_cache
    &&& post.font2_cache == pre.font2_cache
    &&& post.font3_cache == pre.font3_cache
    &&& post.font3_width_cache.record_size_spec() == pre.font3_width_cache.record_size_spec()
}

/// Where the host expects the bitmap a graph-address query asks for, and
/// the bitmap to put there; or the store read that must come first; or
/// nothing for an unknown font number.
pub enum GraphAddr {
    Place { font: FontId, addr: usize, graph_data: Vec<u8> },
    Load(FontId, StoreRead),
    Null,
}

/// The font that the host's font number `font_id` stands for: 0 for the
/// third font, 1 and 2 for the first and second.
pub open spec fn font_of_number(font_id: usize) -> Option<FontId> {
    if font_id == 0 {
        Some(FontId::Font3)
    } else if font_id == 1 {
        Some(FontId::Font1)
    } else if font_id == 2 {
        Some(FontId::Font2)
    } else {
        None
    }
}

impl InitData {
    /// Host address of the glyph buffer of `font`: one record past the start
    /// of its table.
    pub open spec fn graph_slot_addr(&self, font: FontId) -> int {
        match font {
            FontId::Font1 => self.font1_pos + 0x40,
            FontId::Font2 => self.font2_pos + 0x40,
            FontId::Font3 => self.font3_pos + 0x80,
        }
    }

    /// Every glyph buffer address fits in `usize`.
    pub open spec fn wf(&self) -> bool {
        &&& self.font1_pos + 0x40 <= usize::MAX
        &&& self.font2_pos + 0x40 <= usize::MAX
        &&& self.font3_pos + 0x80 <= usize::MAX
    }
}

/// Finds the bitmap of `graph_id` in the font the host numbers `font_id` and
/// says where the host's buffer for it is. Nothing changes on a miss or an
/// unknown font number.
pub fn fontapi_get_font_graph_addr(
    init_data: &InitData,
    fonts: &mut FontLoader,
    graph_id: u16,
    font_id: usize,
) -> (r: GraphAddr)
    requires
        init_data.wf(),
        old(fonts).wf(),
    ensures
        final(fonts).wf(),
        match font_of_number(font_id) {
            None => r is Null && *final(fonts) == *old(fonts),
            Some(font) => {
                let cache_pre = old(fonts).cache_of(font);
                let cache_post = final(fonts).cache_of(font);
                &&& !(r is Null)
                &&& r is Place ==> FontCache::lookup_post(
                    cache_pre,
                    cache_post,
                    graph_id,
                    GraphLookup::Cached(r->graph_data),
                )
                &&& r is Load ==> FontCache::lookup_post(
                    cache_pre,
                    cache_post,
                    graph_id,
                    GraphLookup::Load(r->Load_1),
                )
                &&& forall|f: FontId| f != font ==> final(fonts).cache_of(f) == old(fonts).cache_of(f)
                &&& final(fonts).font3_width_cache == old(fonts).font3_width_cache
                &&& r is Place ==> r->addr == init_data.graph_slot_addr(font) && r->font == font
                &&& r is Load ==> r->Load_0 == font
            },
        },
{
    let (font, addr) = if font_id == 0 {
        (FontId::Font3, init_data.font3_pos + 0x80)
    } else if font_id == 1 {
        (FontId::Font1, init_data.font1_pos + 0x40)
    } else if font_id == 2 {
        (FontId::Font2, init_data.font2_pos + 0x40)
    } else {
        return GraphAddr::Null;
    };
    match fonts.get_graph(graph_id, font) {
        GraphLookup::Cached(graph_data) => GraphAddr::Place { font, addr, graph_data },
        GraphLookup::Load(read) => GraphAddr::Load(font, read),
    }
}

} // verus!
