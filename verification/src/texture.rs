//! Textures as loaded images, the tiles cut from a tile sheet, and the
//! order in which drawn things are sorted.

use vstd::prelude::*;
use image::GenericImageView;

verus! {

#[verifier::external_type_specification]
#[verifier::external_body]
pub struct ExImageError(image::ImageError);

/// What an encoded image decodes to, when it decodes: its RGBA bytes,
/// row by row, with its width and height.
pub uninterp spec fn decoded_rgba(data: Seq<u8>) -> Option<(Seq<u8>, u32, u32)>;

/// `image::load_from_memory`, then the image's dimensions and its pixels
/// as RGBA bytes (`into_rgba8`, `into_raw`): four bytes for each pixel of
/// the decoded size. The result depends on the encoded bytes alone;
/// which inputs decode, and the pixels' values, are not stated.
#[verifier::external_body]
fn decode_rgba(data: &[u8]) -> (r: Result<(Vec<u8>, u32, u32), image::ImageError>)
    ensures
        r is Ok <==> decoded_rgba(data@) is Some,
        r matches Ok(d) ==> decoded_rgba(data@) == Some((d.0@, d.1, d.2)),
        r matches Ok(d) ==> d.0@.len() == 4 * d.1 * d.2,
{
    match image::load_from_memory(data) {
        Ok(img) => {
            let (width, height) = img.dimensions();
            Ok((img.into_rgba8().into_raw(), width, height))
        },
        Err(e) => Err(e),
    }
}

/// Why a texture could not be made.
#[derive(Debug)]
pub enum TextureError {
    /// The bytes do not hold an image that could be decoded.
    Decode(image::ImageError),
}

/// A loaded image: its name, its RGBA bytes and its width and height.
#[derive(Clone, Debug)]
pub struct Texture {
    name: String,
    pub bytes: Vec<u8>,
    width: u32,
    height: u32,
}

impl Texture {
    /// The image's name.
    pub closed spec fn spec_name(&self) -> Seq<char> {
        self.name@
    }

    /// The image's RGBA bytes.
    pub closed spec fn spec_bytes(&self) -> Seq<u8> {
        self.bytes@
    }

    /// The image's width and height.
    pub closed spec fn spec_size(&self) -> (u32, u32) {
        (self.width, self.height)
    }

    /// A texture of the given name, bytes and size.
    pub fn from_parts(name: String, bytes: Vec<u8>, size: (u32, u32)) -> (t: Self)
        ensures
            t.spec_name() == name@,
            t.spec_bytes() == bytes@,
            t.spec_size() == size,
    {
        Texture { name, bytes, width: size.0, height: size.1 }
    }

    /// A texture decoded from an encoded image (PNG) held in memory.
    pub fn from_memory(name: String, data: &[u8]) -> (r: Result<Self, TextureError>)
        ensures
            r is Ok <==> decoded_rgba(data@) is Some,
            r matches Ok(t) ==> t.spec_name() == name@
                && decoded_rgba(data@) == Some((t.spec_bytes(), t.spec_size().0, t.spec_size().1))
                && t.spec_bytes().len() == 4 * t.spec_size().0 * t.spec_size().1,
    {
        match decode_rgba(data) {
            Ok((bytes, width, height)) => Ok(Texture::from_parts(name, bytes, (width, height))),
            Err(e) => Err(TextureError::Decode(e)),
        }
    }

    pub fn bytes(&self) -> (b: &[u8])
        ensures
            b@ == self.spec_bytes(),
    {
        self.bytes.as_slice()
    }

    pub fn name(&self) -> (n: &str)
        ensures
            n@ == self.spec_name(),
    {
        self.name.as_str()
    }

    pub fn size(&self) -> (s: (u32, u32))
        ensures
            s == self.spec_size(),
    {
        (self.width, self.height)
    }
}

/// Where a tile of a sheet came from (x, y in the sheet, in pixels), its
/// id in the atlas, and the atlas entry holding it.
#[derive(Debug, Clone, Copy, PartialEq, Eq, Structural)]
pub struct Tile {
    pub x: u32,
    pub y: u32,
    pub id: u32,
    pub tex_id: usize,
}

/// The tiles cut from a tile sheet, in sheet order.
#[derive(Debug)]
pub struct TileSheet {
    pub tiles: Vec<Tile>,
}

/// The top-left corner, in pixels, of tile number `id` of a sheet that
/// is `sheet_width` tiles wide.
pub open spec fn tile_origin(id: nat, sheet_width: nat, tilesize: nat) -> (nat, nat) {
    ((id % sheet_width) * tilesize, (id / sheet_width) * tilesize)
}

/// Tile number `id` of a sheet of `sheet_width` by `sheet_height` tiles
/// lies within the image.
proof fn lemma_tile_in_sheet(id: int, sheet_width: int, sheet_height: int, tilesize: int, w: int, h: int)
    by (nonlinear_arith)
    requires
        0 <= id < sheet_width * sheet_height,
        tilesize > 0,
        sheet_width == w / tilesize,
        sheet_height == h / tilesize,
        w >= 0,
        h >= 0,
    ensures
        sheet_width > 0,
        (id % sheet_width) * tilesize + tilesize <= w,
        (id / sheet_width) * tilesize + tilesize <= h,
        id / sheet_width < sheet_height,
{
}

impl TileSheet {
    /// The pixel position in the sheet of tile number `id`, when the
    /// sheet is `sheet_width` tiles wide.
    pub fn tile_position(id: u32, sheet_width: u32, tilesize: u32) -> (p: (u32, u32))
        requires
            sheet_width > 0,
            (id % sheet_width) * tilesize <= u32::MAX,
            (id / sheet_width) * tilesize <= u32::MAX,
        ensures
            p.0 == tile_origin(id as nat, sheet_width as nat, tilesize as nat).0,
            p.1 == tile_origin(id as nat, sheet_width as nat, tilesize as nat).1,
    {
        ((id % sheet_width) * tilesize, (id / sheet_width) * tilesize)
    }

    /// Cuts `texture` into tiles of side `tilesize`, row by row: each tile
    /// records where it lies in the sheet and, when it is not blank, the
    /// atlas entry it was uploaded to and the id of its place in the atlas
    /// (`uploads[id]`: the entry and its pixel position, as the atlas
    /// returned them; the atlas is `atlas_width` pixels wide); a blank
    /// tile takes the atlas's `empty` entry and id 0.
    pub fn new(texture: &Texture, tilesize: u32, uploads: &Vec<(usize, (u32, u32))>, empty: usize, atlas_width: u32)
        -> (sheet: Self)
        requires
            tilesize > 0,
            texture.spec_size().0 * texture.spec_size().1 * 4 <= usize::MAX,
            uploads@.len() == (texture.spec_size().0 / tilesize) * (texture.spec_size().1 / tilesize),
            forall|i: int| 0 <= i < uploads@.len() ==> (#[trigger] uploads@[i]).1.0 / tilesize
                + (uploads@[i].1.1 / tilesize) * (atlas_width / tilesize) <= u32::MAX,
        ensures
            sheet.tiles@.len() == uploads@.len(),
            forall|i: int| 0 <= i < sheet.tiles@.len() ==> {
                let o = tile_origin(i as nat, (texture.spec_size().0 / tilesize) as nat, tilesize as nat);
                #[trigger] sheet.tiles@[i] == cut_tile(i as nat, (texture.spec_size().0 / tilesize) as nat, tilesize as nat,
                    blank_square(texture.spec_bytes(), texture.spec_size(), o.0 as int, o.1 as int, tilesize as int),
                    empty, uploads@[i], (atlas_width / tilesize) as nat)
            },
    {
        let (w, h) = texture.size();
        let sheet_width = w / tilesize;
        let sheet_height = h / tilesize;
        let atlas_tiles = atlas_width / tilesize;
        let count = uploads.len();
        let mut tiles: Vec<Tile> = Vec::new();
        let mut id: usize = 0;
        while id < count
            invariant
                count == uploads@.len(),
                count == sheet_width * sheet_height,
                sheet_width == w / tilesize,
                sheet_height == h / tilesize,
                (w, h) == texture.spec_size(),
                atlas_tiles == atlas_width / tilesize,
                tilesize > 0,
                w * h * 4 <= usize::MAX,
                id <= count,
                tiles@.len() == id,
                forall|i: int| 0 <= i < uploads@.len() ==> (#[trigger] uploads@[i]).1.0 / tilesize
                    + (uploads@[i].1.1 / tilesize) * atlas_tiles <= u32::MAX,
                forall|i: int| 0 <= i < id ==> {
                    let o = tile_origin(i as nat, sheet_width as nat, tilesize as nat);
                    #[trigger] tiles@[i] == cut_tile(i as nat, sheet_width as nat, tilesize as nat,
                        blank_square(texture.spec_bytes(), texture.spec_size(), o.0 as int, o.1 as int, tilesize as int),
                        empty, uploads@[i], atlas_tiles as nat)
                },
            decreases count - id,
        {
            proof {
                lemma_tile_in_sheet(id as int, sheet_width as int, sheet_height as int, tilesize as int, w as int, h as int);
            }
            let col = (id % (sheet_width as usize)) as u32;
            let row = (id / (sheet_width as usize)) as u32;
            let tilex = col * tilesize;
            let tiley = row * tilesize;
            let blank = texture.is_blank_square(tilex, tiley, tilesize);
            let (tex_id, pos) = uploads[id];
            let tile = if blank {
                Tile { x: tilex, y: tiley, id: 0, tex_id: empty }
            } else {
                Tile { x: tilex, y: tiley, id: pos.0 / tilesize + (pos.1 / tilesize) * atlas_tiles, tex_id }
            };
            tiles.push(tile);
            id = id + 1;
        }
        TileSheet { tiles }
    }

    /// Cuts another texture into tiles as `new` does and adds them after
    /// the sheet's tiles.
    pub fn upload(&mut self, texture: &Texture, tilesize: u32, uploads: &Vec<(usize, (u32, u32))>, empty: usize, atlas_width: u32)
        requires
            tilesize > 0,
            texture.spec_size().0 * texture.spec_size().1 * 4 <= usize::MAX,
            uploads@.len() == (texture.spec_size().0 / tilesize) * (texture.spec_size().1 / tilesize),
            forall|i: int| 0 <= i < uploads@.len() ==> (#[trigger] uploads@[i]).1.0 / tilesize
                + (uploads@[i].1.1 / tilesize) * (atlas_width / tilesize) <= u32::MAX,
        ensures
            final(self).tiles@.len() == old(self).tiles@.len() + uploads@.len(),
            final(self).tiles@.take(old(self).tiles@.len() as int) == old(self).tiles@,
            forall|i: int| 0 <= i < uploads@.len() ==> {
                let o = tile_origin(i as nat, (texture.spec_size().0 / tilesize) as nat, tilesize as nat);
                #[trigger] final(self).tiles@[old(self).tiles@.len() + i] == cut_tile(i as nat,
                    (texture.spec_size().0 / tilesize) as nat, tilesize as nat,
                    blank_square(texture.spec_bytes(), texture.spec_size(), o.0 as int, o.1 as int, tilesize as int),
                    empty, uploads@[i], (atlas_width / tilesize) as nat)
            },
    {
        let mut added = TileSheet::new(texture, tilesize, uploads, empty, atlas_width);
        self.tiles.append(&mut added.tiles);
        assert(self.tiles@.take(old(self).tiles@.len() as int) =~= old(self).tiles@);
    }

    /// The id under which the atlas knows a tile placed at pixel
    /// (posx, posy) of an atlas `atlas_width` tiles wide.
    pub fn atlas_tile_id(posx: u32, posy: u32, tilesize: u32, atlas_width: u32) -> (id: u32)
        requires
            tilesize > 0,
            posx / tilesize + (posy / tilesize) * atlas_width <= u32::MAX,
        ensures
            id == posx / tilesize + (posy / tilesize) * atlas_width,
    {
        (posx / tilesize) + ((posy / tilesize) * atlas_width)
    }
}

/// The alpha of pixel (x, y) of RGBA bytes `width` pixels wide.
pub open spec fn alpha_at(bytes: Seq<u8>, width: int, x: int, y: int) -> u8 {
    bytes[(y * width + x) * 4 + 3]
}

/// Whether the square of side `tilesize` at pixel (ox, oy) of a texture
/// is fully transparent. Bytes too few for the texture's size read as a
/// blank image.
pub open spec fn blank_square(bytes: Seq<u8>, size: (u32, u32), ox: int, oy: int, tilesize: int) -> bool {
    bytes.len() < size.0 * size.1 * 4
        || forall|x: int, y: int| 0 <= x < tilesize && 0 <= y < tilesize
            ==> #[trigger] alpha_at(bytes, size.0 as int, ox + x, oy + y) == 0
}

/// Tile number `id` of a sheet `sheet_width` tiles wide, cut at side
/// `tilesize`: a blank tile takes the atlas's empty entry and id 0, any
/// other the entry it was uploaded to and the id of its place in an atlas
/// `atlas_width` tiles wide.
pub open spec fn cut_tile(id: nat, sheet_width: nat, tilesize: nat, blank: bool, empty: usize,
    upload: (usize, (u32, u32)), atlas_width: nat) -> Tile {
    let o = tile_origin(id, sheet_width, tilesize);
    Tile {
        x: o.0 as u32,
        y: o.1 as u32,
        id: if blank { 0 } else { ((upload.1.0 as nat) / tilesize + ((upload.1.1 as nat) / tilesize) * atlas_width) as u32 },
        tex_id: if blank { empty } else { upload.0 },
    }
}

/// A pixel of a row of pixels lies before the end of the image's bytes.
proof fn lemma_pixel_index(w: int, h: int, x: int, y: int)
    by (nonlinear_arith)
    requires
        0 <= x < w,
        0 <= y < h,
    ensures
        (y * w + x) * 4 + 3 < w * h * 4,
        0 <= y * w + x,
        y * w + x <= w * h,
{
}

impl Texture {
    /// Whether the square of side `tilesize` at pixel (ox, oy) is fully
    /// transparent (see `blank_square`).
    pub fn is_blank_square(&self, ox: u32, oy: u32, tilesize: u32) -> (b: bool)
        requires
            ox + tilesize <= self.spec_size().0,
            oy + tilesize <= self.spec_size().1,
            self.spec_size().0 * self.spec_size().1 * 4 <= usize::MAX,
        ensures
            b == blank_square(self.spec_bytes(), self.spec_size(), ox as int, oy as int, tilesize as int),
    {
        let w = self.width as usize;
        let h = self.height as usize;
        proof {
            assert(w * h * 4 <= usize::MAX);
            assert(w * h <= w * h * 4) by (nonlinear_arith) requires w >= 0, h >= 0;
        }
        let needed = w * h * 4;
        if self.bytes.len() < needed {
            return true;
        }
        let mut y: u32 = 0;
        while y < tilesize
            invariant
                y <= tilesize,
                w == self.spec_size().0,
                h == self.spec_size().1,
                needed == w * h * 4,
                self.bytes@.len() >= needed,
                ox + tilesize <= w,
                oy + tilesize <= h,
                forall|xx: int, yy: int| 0 <= xx < tilesize && 0 <= yy < y
                    ==> #[trigger] alpha_at(self.bytes@, w as int, ox + xx, oy + yy) == 0,
            decreases tilesize - y,
        {
            let mut x: u32 = 0;
            while x < tilesize
                invariant
                    x <= tilesize,
                    y < tilesize,
                    w == self.spec_size().0,
                    h == self.spec_size().1,
                    needed == w * h * 4,
                    self.bytes@.len() >= needed,
                    ox + tilesize <= w,
                    oy + tilesize <= h,
                    forall|xx: int, yy: int| 0 <= xx < tilesize && 0 <= yy < y
                        ==> #[trigger] alpha_at(self.bytes@, w as int, ox + xx, oy + yy) == 0,
                    forall|xx: int| 0 <= xx < x ==> #[trigger] alpha_at(self.bytes@, w as int, ox + xx, oy + y) == 0,
                decreases tilesize - x,
            {
                let px = (ox + x) as usize;
                let py = (oy + y) as usize;
                proof {
                    lemma_pixel_index(w as int, h as int, px as int, py as int);
                }
                let row = py * w + px;
                let idx = row * 4 + 3;
                if self.bytes[idx] != 0 {
                    assert(alpha_at(self.bytes@, w as int, ox + x, oy + y) != 0);
                    return false;
                }
                x = x + 1;
            }
            proof {
                assert forall|xx: int, yy: int| 0 <= xx < tilesize && 0 <= yy < y + 1
                    implies #[trigger] alpha_at(self.bytes@, w as int, ox + xx, oy + yy) == 0 by {
                    if yy == y {
                        assert(alpha_at(self.bytes@, w as int, ox + xx, oy + y) == 0);
                    }
                }
            }
            y = y + 1;
        }
        true
    }
}

/// The count and capacity of the indices of one buffer.
#[derive(Debug, Clone, Copy, PartialEq, Eq, Structural)]
pub struct IndexDetails {
    pub count: u32,
    pub max: u32,
}

/// Sorting key of a drawn object.
#[derive(Copy, Clone, PartialEq, Eq, Structural, Debug)]
pub struct DrawOrder {
    /// Lowest to highest; splits different kinds into layers.
    pub layer: u32,
    /// Transparent objects come after opaque ones.
    pub alpha: bool,
    /// Lower is drawn first.
    pub x: u32,
    /// Higher is drawn first.
    pub y: u32,
    /// Higher is drawn first.
    pub z: u32,
}

/// `a` is drawn before `b`: compared by layer, then transparency, then
/// x upward, then y downward, then z downward.
pub open spec fn before(a: DrawOrder, b: DrawOrder) -> bool {
    if a.layer != b.layer {
        a.layer < b.layer
    } else if a.alpha != b.alpha {
        !a.alpha
    } else if a.x != b.x {
        a.x < b.x
    } else if a.y != b.y {
        a.y > b.y
    } else {
        a.z > b.z
    }
}

impl DrawOrder {
    /// The order of an object at the front of the first layer.
    pub fn default() -> (d: Self)
        ensures
            d == (DrawOrder { layer: 0, alpha: false, x: 0, y: 0, z: 0 }),
    {
        DrawOrder { layer: 0, alpha: false, x: 0, y: 0, z: 0 }
    }

    /// Whether this object is drawn before `other`.
    pub fn draws_before(&self, other: &DrawOrder) -> (b: bool)
        ensures
            b == before(*self, *other),
    {
        if self.layer != other.layer {
            self.layer < other.layer
        } else if self.alpha != other.alpha {
            !self.alpha
        } else if self.x != other.x {
            self.x < other.x
        } else if self.y != other.y {
            self.y > other.y
        } else {
            self.z > other.z
        }
    }
}

/// The drawing order is a strict total order: never before itself,
/// transitive, and any two different keys are ordered one way.
pub proof fn lemma_draw_order_total(a: DrawOrder, b: DrawOrder, c: DrawOrder)
    ensures
        !before(a, a),
        before(a, b) && before(b, c) ==> before(a, c),
        a != b ==> before(a, b) != before(b, a),
        a == b ==> !before(a, b) && !before(b, a),
{
}

} // verus!
