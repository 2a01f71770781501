//! Description of a tiled image: its tilesets, tilemaps, palette and output,
//! built up step by step.
use vstd::prelude::*;

verus! {

/// A tileset file and the number of its first tile.
pub struct TilesetMeta {
    pub input_file: String,
    pub output_file: String,
    pub base_tile: usize,
}

/// A tilemap file and its size in tiles.
pub struct TilemapMeta {
    pub input_file: String,
    pub output_file: String,
    pub width: usize,
    pub height: usize,
}

/// Tilesets and tilemaps that make up one image, with its palette and the
/// file it is written to.
pub struct TileImage {
    pub tileset: Vec<TilesetMeta>,
    pub tilemap: Vec<TilemapMeta>,
    pub first_color_pos: (usize, usize),
    pub palette: Option<String>,
    pub palette_reference: bool,
    pub default_color_index: Option<u8>,
    pub output: String,
    pub is_4bpp: bool,
}

/// Why the tilemaps and tilesets of an image do not go together.
#[derive(Debug, PartialEq, Eq, Structural, Clone, Copy)]
pub enum TileImageError {
    /// Several tilemaps and several tilesets, in different numbers.
    CountMismatch { tilemaps: usize, tilesets: usize },
}

/// Whether `tilemaps` tilemaps can be drawn with `tilesets` tilesets: one
/// tilemap or one tileset goes with any number of the other, otherwise the
/// numbers must be equal.
pub open spec fn counts_match(tilemaps: nat, tilesets: nat) -> bool {
    tilemaps == 1 || tilesets == 1 || tilemaps == tilesets
}

/// Pixel width of an image of the tilemaps `maps`: the widest of them.
pub open spec fn image_width(maps: Seq<TilemapMeta>) -> nat
    decreases maps.len(),
{
    if maps.len() == 0 {
        0
    } else {
        let rest = image_width(maps.drop_last());
        let w = maps.last().width as nat * 8;
        if w > rest { w } else { rest }
    }
}

/// Pixel height of an image of the tilemaps `maps`: their heights stacked.
pub open spec fn image_height(maps: Seq<TilemapMeta>) -> nat
    decreases maps.len(),
{
    if maps.len() == 0 {
        0
    } else {
        image_height(maps.drop_last()) + maps.last().height as nat * 8
    }
}

/// Stacked heights only grow with more tilemaps.
proof fn lemma_image_height_prefix(maps: Seq<TilemapMeta>, n: int)
    requires
        0 <= n <= maps.len(),
    ensures
        image_height(maps.subrange(0, n)) <= image_height(maps),
    decreases maps.len() - n,
{
    if n < maps.len() {
        lemma_image_height_prefix(maps, n + 1);
        assert(maps.subrange(0, n + 1).drop_last() =~= maps.subrange(0, n));
    } else {
        assert(maps.subrange(0, n) =~= maps);
    }
}

impl TileImage {
    /// An image with no tilesets, tilemaps, palette or output, in 8 bits per
    /// pixel.
    pub fn new() -> (r: TileImage)
        ensures
            r.tileset@.len() == 0,
            r.tilemap@.len() == 0,
            r.first_color_pos == (0usize, 0usize),
            r.palette is None,
            !r.palette_reference,
            r.default_color_index is None,
            r.output@.len() == 0,
            !r.is_4bpp,
    {
        TileImage {
            tileset: Vec::new(),
            tilemap: Vec::new(),
            first_color_pos: (0, 0),
            palette: None,
            palette_reference: false,
            default_color_index: None,
            output: String::new(),
            is_4bpp: false,
        }
    }

    /// The same image in 4 bits per pixel.
    pub fn with_4bpp(self) -> (r: TileImage)
        ensures
            r == (TileImage { is_4bpp: true, ..self }),
    {
        let mut image = self;
        image.is_4bpp = true;
        image
    }

    /// The same image in 8 bits per pixel.
    pub fn with_8bpp(self) -> (r: TileImage)
        ensures
            r == (TileImage { is_4bpp: false, ..self }),
    {
        let mut image = self;
        image.is_4bpp = false;
        image
    }

    /// The same image with its first colour at pixel (`x`, `y`).
    pub fn with_first_color_pos(self, x: usize, y: usize) -> (r: TileImage)
        ensures
            r == (TileImage { first_color_pos: (x, y), ..self }),
    {
        let mut image = self;
        image.first_color_pos = (x, y);
        image
    }

    /// The same image, taking its palette as a reference only.
    pub fn with_palette_reference(self) -> (r: TileImage)
        ensures
            r == (TileImage { palette_reference: true, ..self }),
    {
        let mut image = self;
        image.palette_reference = true;
        image
    }

    /// The same image, drawing a missing colour with palette entry `index`.
    pub fn with_default_color_index(self, index: u8) -> (r: TileImage)
        ensures
            r == (TileImage { default_color_index: Some(index), ..self }),
    {
        let mut image = self;
        image.default_color_index = Some(index);
        image
    }

    /// The same image with one more tileset, read from and written back to
    /// `input_file`, whose first tile is number `base_tile`.
    pub fn with_tileset(self, input_file: &str, base_tile: usize) -> (r: TileImage)
        ensures
            r.tileset@.len() == self.tileset@.len() + 1,
            r.tileset@.drop_last() == self.tileset@,
            r.tileset@.last().input_file@ == input_file@,
            r.tileset@.last().output_file@ == input_file@,
            r.tileset@.last().base_tile == base_tile,
            r == (TileImage { tileset: r.tileset, ..self }),
    {
        let mut image = self;
        image.tileset.push(
            TilesetMeta {
                input_file: input_file.to_owned(),
                output_file: input_file.to_owned(),
                base_tile,
            },
        );
        assert(image.tileset@.drop_last() =~= self.tileset@);
        image
    }

    /// The same image with one more tilemap of `width` by `height` tiles, read
    /// from and written back to `input_file`.
    pub fn with_tilemap(self, input_file: &str, width: usize, height: usize) -> (r: TileImage)
        ensures
            r.tilemap@.len() == self.tilemap@.len() + 1,
            r.tilemap@.drop_last() == self.tilemap@,
            r.tilemap@.last().input_file@ == input_file@,
            r.tilemap@.last().output_file@ == input_file@,
            r.tilemap@.last().width == width,
            r.tilemap@.last().height == height,
            r == (TileImage { tilemap: r.tilemap, ..self }),
    {
        let mut image = self;
        image.tilemap.push(
            TilemapMeta {
                input_file: input_file.to_owned(),
                output_file: input_file.to_owned(),
                width,
                height,
            },
        );
        assert(image.tilemap@.drop_last() =~= self.tilemap@);
        image
    }

    /// The same image, written to `output`.
    pub fn with_output(self, output: &str) -> (r: TileImage)
        ensures
            r.output@ == output@,
            r == (TileImage { output: r.output, ..self }),
    {
        let mut image = self;
        image.output = output.to_owned();
        image
    }

    /// The same image, with its palette read from `palette`.
    pub fn with_palette(self, palette: &str) -> (r: TileImage)
        ensures
            r.palette is Some,
            r.palette->0@ == palette@,
            r == (TileImage { palette: r.palette, ..self }),
    {
        let mut image = self;
        image.palette = Some(palette.to_owned());
        image
    }

    /// Checks that the tilemaps and tilesets go together (`counts_match`).
    pub fn verify_tilemap_tileset_len(&self) -> (r: Result<(), TileImageError>)
        ensures
            r is Ok <==> counts_match(self.tilemap@.len(), self.tileset@.len()),
            r is Err ==> r == Err::<(), TileImageError>(
                TileImageError::CountMismatch {
                    tilemaps: self.tilemap@.len() as usize,
                    tilesets: self.tileset@.len() as usize,
                },
            ),
    {
        let tilemaps = self.tilemap.len();
        let tilesets = self.tileset.len();
        if tilemaps == 1 || tilesets == 1 || tilemaps == tilesets {
            Ok(())
        } else {
            Err(TileImageError::CountMismatch { tilemaps, tilesets })
        }
    }

    /// Pixel size of the image: as wide as its widest tilemap, as high as its
    /// tilemaps stacked.
    pub fn get_image_size(&self) -> (r: (usize, usize))
        requires
            image_height(self.tilemap@) <= usize::MAX,
            forall|i: int| 0 <= i < self.tilemap@.len() ==> (#[trigger] self.tilemap@[i]).width * 8
                <= usize::MAX,
        ensures
            r.0 == image_width(self.tilemap@),
            r.1 == image_height(self.tilemap@),
    {
        let mut width: usize = 0;
        let mut height: usize = 0;
        let mut i: usize = 0;
        proof {
            lemma_image_height_prefix(self.tilemap@, 0);
        }
        while i < self.tilemap.len()
            invariant
                i <= self.tilemap@.len(),
                width == image_width(self.tilemap@.subrange(0, i as int)),
                height == image_height(self.tilemap@.subrange(0, i as int)),
                image_height(self.tilemap@) <= usize::MAX,
                forall|k: int| 0 <= k < self.tilemap@.len() ==> (#[trigger] self.tilemap@[k]).width
                    * 8 <= usize::MAX,
            decreases self.tilemap@.len() - i,
        {
            let map = &self.tilemap[i];
            proof {
                let next = self.tilemap@.subrange(0, i + 1);
                assert(next.drop_last() =~= self.tilemap@.subrange(0, i as int));
                assert(next.last() == self.tilemap@[i as int]);
                lemma_image_height_prefix(self.tilemap@, i + 1);
            }
            let map_width = map.width * 8;
            if map_width > width {
                width = map_width;
            }
            height = height + map.height * 8;
            i = i + 1;
        }
        assert(self.tilemap@.subrange(0, i as int) =~= self.tilemap@);
        (width, height)
    }
}

} // verus!
