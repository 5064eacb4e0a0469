//! The screen device: a paletted, layered framebuffer with packed pixels,
//! driven by a list of sprite commands in linear memory.
use vstd::prelude::*;
use crate::dma::{DirectMemoryAccess, word_at};
use crate::device::Device;
use crate::memory::{
    MEM_SIZE, COMMAND_SIZE, COMMAND_CLEAR, COMMAND_SPRITE1, COMMAND_SPRITE4, SCREEN_VECTOR, SCREEN_WIDTH,
    SCREEN_HEIGHT, SCREEN_CMD_LENGTH, SCREEN_CMD_ADDR, SCREEN_ZOOM, SCREEN_PALETTE0, SCREEN_PALETTE15,
    SCREEN_LAYER0, SCREEN_LAYER_LENGTH,
};
use crate::vm::Fault;

verus! {

/// Number of layers; layer 0 is the background.
pub const LAYERS: u32 = 4;
/// Largest number of pixels in a layer, so that a packed layer fits its MMIO window.
pub const MAX_PIXELS: u32 = 0x10_0000;

/// The host's presentation backend.
pub trait Display {
    /// The screen's geometry changed: width and height in pixels, and zoom.
    fn resize(&mut self, width: u32, height: u32, zoom: u32);

    /// Presents a composited frame (two pixels per byte) with its palette.
    fn render(&mut self, buffer: &[u8], palette: &[u32]);
}

/// The abstract state of a screen.
pub struct ScreenView {
    pub vector: u32,
    pub width: u32,
    pub height: u32,
    pub zoom: u32,
    pub cmd_length: u32,
    pub palette: Seq<u32>,
    /// All layers, one after another, each `layer_size` bytes.
    pub layers: Seq<u8>,
}

/// Bytes in one packed layer.
pub open spec fn layer_size(width: u32, height: u32) -> int {
    (width * height) / 2
}

pub open spec fn screen_wf(v: ScreenView) -> bool {
    &&& 8 <= v.width
    &&& v.width % 2 == 0
    &&& 8 <= v.height
    &&& v.width * v.height <= MAX_PIXELS
    &&& 1 <= v.zoom
    &&& v.palette.len() == 16
    &&& v.layers.len() == LAYERS * layer_size(v.width, v.height)
}

/// Offset within its layer of the byte that holds pixel (x, y).
pub open spec fn pixel_index(width: u32, x: int, y: int) -> int {
    y * (width / 2) + x / 2
}

/// The pixel held by byte `b` at column `x`: high nibble for even `x`, low for odd.
pub open spec fn nibble(b: u8, x: int) -> u8 {
    if x % 2 == 1 { b % 16 } else { b / 16 }
}

/// Byte `b` with the nibble of column `x` replaced by `c` (mod 16).
pub open spec fn with_nibble(b: u8, x: int, c: u8) -> u8 {
    if x % 2 == 1 { ((b / 16) * 16 + c % 16) as u8 } else { ((c % 16) * 16 + b % 16) as u8 }
}

/// The pixel (x, y) of layer `layer`.
pub open spec fn pixel(v: ScreenView, layer: int, x: int, y: int) -> u8 {
    nibble(v.layers[layer * layer_size(v.width, v.height) + pixel_index(v.width, x, y)], x)
}

/// Sets pixel (x, y) of `layer` to `c` mod 16; a pixel outside the screen is dropped.
pub open spec fn set_pixel_spec(v: ScreenView, layer: int, x: int, y: int, c: u8) -> ScreenView {
    if 0 <= x < v.width && 0 <= y < v.height {
        let i = layer * layer_size(v.width, v.height) + pixel_index(v.width, x, y);
        ScreenView { layers: v.layers.update(i, with_nibble(v.layers[i], x, c)), ..v }
    } else {
        v
    }
}

/// Every pixel of a layer lies within the layer's bytes.
pub proof fn lemma_pixel_in_layer(width: u32, height: u32, x: int, y: int)
    requires
        8 <= width,
        8 <= height,
        0 <= x < width,
        0 <= y < height,
    ensures
        0 <= pixel_index(width, x, y) < layer_size(width, height),
{
    let w = width as int;
    let h = height as int;
    assert(0 <= y * (w / 2)) by (nonlinear_arith) requires 0 <= y, 0 <= w;
    let k = w / 2;
    let r = w % 2;
    assert(y * k <= (h - 1) * k) by (nonlinear_arith) requires 0 <= y < h, 0 <= k;
    assert(x / 2 <= k - 1 + r);
    assert(w * h == 2 * (k * h) + r * h) by (nonlinear_arith) requires w == 2 * k + r;
    assert((h - 1) * k == k * h - k) by (nonlinear_arith);
    if r == 1 {
        assert((w * h) / 2 == k * h + h / 2);
    } else {
        assert((w * h) / 2 == k * h);
    }
}

/// Setting a pixel and reading it back yields its colour (mod 16), and every
/// other pixel of every layer keeps its colour.
pub proof fn law_pixel_round_trip(v: ScreenView, layer: int, x: int, y: int, c: u8, l2: int, x2: int, y2: int)
    requires
        screen_wf(v),
        0 <= layer < LAYERS,
        0 <= x < v.width,
        0 <= y < v.height,
        0 <= l2 < LAYERS,
        0 <= x2 < v.width,
        0 <= y2 < v.height,
    ensures
        pixel(set_pixel_spec(v, layer, x, y, c), layer, x, y) == c % 16,
        (l2, x2, y2) != (layer, x, y) ==> pixel(set_pixel_spec(v, layer, x, y, c), l2, x2, y2) == pixel(v, l2, x2, y2),
{
    let n = layer_size(v.width, v.height);
    let w = v.width as int;
    lemma_pixel_in_layer(v.width, v.height, x, y);
    lemma_pixel_in_layer(v.width, v.height, x2, y2);
    let i = layer * n + pixel_index(v.width, x, y);
    let i2 = l2 * n + pixel_index(v.width, x2, y2);
    assert(0 <= layer * n <= (LAYERS - 1) * n) by (nonlinear_arith) requires 0 <= layer < LAYERS, 0 <= n;
    assert(0 <= l2 * n <= (LAYERS - 1) * n) by (nonlinear_arith) requires 0 <= l2 < LAYERS, 0 <= n;
    if i == i2 {
        // The same byte: same layer, same row, and columns that differ only in their low bit.
        assert(layer == l2) by (nonlinear_arith)
            requires
                i == i2,
                i == layer * n + pixel_index(v.width, x, y),
                i2 == l2 * n + pixel_index(v.width, x2, y2),
                0 <= pixel_index(v.width, x, y) < n,
                0 <= pixel_index(v.width, x2, y2) < n,
        ;
        assert(y == y2 && x / 2 == x2 / 2) by (nonlinear_arith)
            requires
                y * (w / 2) + x / 2 == y2 * (w / 2) + x2 / 2,
                0 <= x < w, 0 <= x2 < w, 0 <= y, 0 <= y2, w % 2 == 0, w >= 8,
        ;
    }
}

/// The palette a screen starts with.
pub open spec fn default_palette() -> Seq<u32> {
    seq![
        0x1a1c2c, 0x5d275d, 0xb13e53, 0xef7d57, 0xffcd75, 0xa7f070, 0x38b764, 0x257179,
        0x29366f, 0x3b5dc9, 0x41a6f6, 0x73eff7, 0xf4f4f4, 0x94b0c2, 0x566c86, 0x333c57,
    ]
}

/// Pixel `src` drawn over pixel `dst`: palette index 0 is transparent.
pub open spec fn over_pixel(dst: u8, src: u8) -> u8 {
    if src != 0 { src } else { dst }
}

/// Packed byte `src` drawn over packed byte `dst`, nibble by nibble.
pub open spec fn over_byte(dst: u8, src: u8) -> u8 {
    (over_pixel(dst / 16, src / 16) * 16 + over_pixel(dst % 16, src % 16)) as u8
}

/// The composite of all layers: layer 0, then each higher layer over it.
pub open spec fn composite(v: ScreenView) -> Seq<u8> {
    let n = layer_size(v.width, v.height);
    Seq::new(n as nat, |i: int| over_byte(over_byte(over_byte(v.layers[i], v.layers[n + i]), v.layers[2 * n + i]),
        v.layers[3 * n + i]))
}

/// `v` with geometry `width` x `height` and zoom `zoom`: each layer keeps its
/// leading bytes and is cut or zero-extended to the new size.
pub open spec fn resized(v: ScreenView, width: u32, height: u32, zoom: u32) -> ScreenView {
    let n = layer_size(v.width, v.height);
    let m = layer_size(width, height);
    ScreenView {
        width,
        height,
        zoom,
        layers: Seq::new((LAYERS * m) as nat, |i: int| if i % m < n { v.layers[(i / m) * n + i % m] } else { 0u8 }),
        ..v
    }
}

/// A width or height as the WIDTH and HEIGHT registers take it: at least 8,
/// and small enough that `value * other <= MAX_PIXELS`.
pub open spec fn clamp_dim(value: u32, other: u32) -> u32 {
    let lo = if value < 8 { 8 } else { value };
    if lo > MAX_PIXELS / other { (MAX_PIXELS / other) as u32 } else { lo }
}

/// The red, green, blue and alpha bytes of palette entry `c`; its high byte is ignored.
pub open spec fn rgba_channel(c: u32, j: int) -> u8 {
    if j == 0 { ((c / 0x1_0000) % 0x100) as u8 } else if j == 1 { ((c / 0x100) % 0x100) as u8 } else if j == 2 {
        (c % 0x100) as u8
    } else {
        0xFF
    }
}

/// Packed pixels as RGBA bytes: four bytes per pixel, two pixels per packed byte.
pub open spec fn rgba_of(buffer: Seq<u8>, palette: Seq<u32>) -> Seq<u8> {
    Seq::new(buffer.len() * 8, |i: int| rgba_channel(palette[nibble(buffer[i / 8], i / 4) as int], i % 4))
}

/// Converts a composited frame to RGBA bytes through `palette`.
pub fn to_rgba(buffer: &[u8], palette: &[u32]) -> (r: Vec<u8>)
    requires
        palette@.len() == 16,
        buffer@.len() * 8 <= usize::MAX,
    ensures
        r@ == rgba_of(buffer@, palette@),
{
    let ghost want = rgba_of(buffer@, palette@);
    let mut r: Vec<u8> = Vec::with_capacity(buffer.len() * 8);
    let mut i: usize = 0;
    while i < buffer.len()
        invariant
            palette@.len() == 16,
            buffer@.len() * 8 <= usize::MAX,
            want == rgba_of(buffer@, palette@),
            i <= buffer@.len(),
            r@ == want.subrange(0, 8 * i as int),
        decreases buffer@.len() - i,
    {
        let pp = buffer[i];
        let mut h: usize = 0;
        while h < 2
            invariant
                palette@.len() == 16,
                buffer@.len() * 8 <= usize::MAX,
                want == rgba_of(buffer@, palette@),
                i < buffer@.len(),
                pp == buffer@[i as int],
                h <= 2,
                r@ == want.subrange(0, 8 * i + 4 * h),
            decreases 2 - h,
        {
            let index = if h == 0 { pp / 16 } else { pp % 16 };
            let c = palette[index as usize];
            let channels = [((c / 0x1_0000) % 0x100) as u8, ((c / 0x100) % 0x100) as u8, (c % 0x100) as u8, 0xFFu8];
            let mut j: usize = 0;
            while j < 4
                invariant
                    palette@.len() == 16,
                    buffer@.len() * 8 <= usize::MAX,
                    want == rgba_of(buffer@, palette@),
                    i < buffer@.len(),
                    h < 2,
                    j <= 4,
                    c == palette@[nibble(buffer@[i as int], 2 * i + h) as int],
                    forall|q: int| 0 <= q < 4 ==> channels@[q] == rgba_channel(c, q),
                    r@ == want.subrange(0, 8 * i + 4 * h + j),
                decreases 4 - j,
            {
                let ghost at = 8 * i + 4 * h + j;
                assert(at / 8 == i && at / 4 == 2 * i + h && at % 4 == j) by (nonlinear_arith)
                    requires at == 8 * i + 4 * h + j, h < 2, j < 4;
                r.push(channels[j]);
                j += 1;
                assert(r@ =~= want.subrange(0, 8 * i + 4 * h + j));
            }
            h += 1;
        }
        i += 1;
    }
    assert(r@ =~= want);
    r
}

/// A width as the WIDTH register takes it: clamped as `clamp_dim` says and
/// rounded down to even, so that every row is a whole number of bytes.
pub open spec fn clamp_width(value: u32, height: u32) -> u32 {
    (clamp_dim(value, height) - clamp_dim(value, height) % 2) as u32
}

/// A screen device that presents through `D`.
pub struct ScreenDevice<D: Display> {
    pub display: D,
    pub vector: u32,
    width: u32,
    height: u32,
    zoom: u32,
    cmd_length: u32,
    palette: Vec<u32>,
    layers: Vec<u8>,
    /// The last frame handed to the display.
    composited: Vec<u8>,
}

impl<D: Display> View for ScreenDevice<D> {
    type V = ScreenView;

    closed spec fn view(&self) -> ScreenView {
        ScreenView {
            vector: self.vector,
            width: self.width,
            height: self.height,
            zoom: self.zoom,
            cmd_length: self.cmd_length,
            palette: self.palette@,
            layers: self.layers@,
        }
    }
}

/// `n` zero bytes.
fn zeros(n: usize) -> (r: Vec<u8>)
    ensures
        r@ == Seq::new(n as nat, |i: int| 0u8),
{
    let mut r: Vec<u8> = Vec::with_capacity(n);
    let mut i: usize = 0;
    while i < n
        invariant
            i <= n,
            r@ == Seq::new(i as nat, |k: int| 0u8),
        decreases n - i,
    {
        r.push(0);
        i += 1;
        assert(r@ =~= Seq::new(i as nat, |k: int| 0u8));
    }
    r
}

/// Byte `b` with the nibble of column `x` replaced by `c` (mod 16).
fn with_nibble_exec(b: u8, x: u32, c: u8) -> (r: u8)
    ensures
        r == with_nibble(b, x as int, c),
{
    if x % 2 == 1 { (b / 16) * 16 + c % 16 } else { (c % 16) * 16 + b % 16 }
}

fn over_byte_exec(dst: u8, src: u8) -> (r: u8)
    ensures
        r == over_byte(dst, src),
{
    let hi = if src / 16 != 0 { src / 16 } else { dst / 16 };
    let lo = if src % 16 != 0 { src % 16 } else { dst % 16 };
    hi * 16 + lo
}

impl<D: Display> ScreenDevice<D> {
    pub open spec fn wf(&self) -> bool {
        screen_wf(self@)
    }

    /// The display the screen presents through.
    pub closed spec fn backend(&self) -> D {
        self.display
    }

    /// The last frame handed to the display.
    pub closed spec fn frame(&self) -> Seq<u8> {
        self.composited@
    }

    /// A 512 x 320 screen at zoom 1 with the default palette and all layers clear.
    pub fn new(display: D) -> (r: Self)
        ensures
            r.wf(),
            r.backend() == display,
            r.frame() == Seq::<u8>::empty(),
            r@.vector == 0,
            r@.width == 512,
            r@.height == 320,
            r@.zoom == 1,
            r@.cmd_length == 0,
            r@.palette == default_palette(),
            r@.layers == Seq::new((LAYERS * layer_size(512, 320)) as nat, |i: int| 0u8),
    {
        let palette = vec![
            0x1a1c2c, 0x5d275d, 0xb13e53, 0xef7d57, 0xffcd75, 0xa7f070, 0x38b764, 0x257179,
            0x29366f, 0x3b5dc9, 0x41a6f6, 0x73eff7, 0xf4f4f4, 0x94b0c2, 0x566c86, 0x333c57,
        ];
        let layers = zeros((LAYERS * (512 * 320) / 2) as usize);
        let r = ScreenDevice {
            display,
            vector: 0,
            width: 512,
            height: 320,
            zoom: 1,
            cmd_length: 0,
            palette,
            layers,
            composited: Vec::new(),
        };
        assert(r@.palette =~= default_palette());
        r
    }

    /// Width and height in pixels.
    pub fn size(&self) -> (r: (u32, u32))
        ensures
            r == (self@.width, self@.height),
    {
        (self.width, self.height)
    }

    /// Sets pixel (x, y) of `layer` to `color` mod 16; a pixel outside the
    /// screen is dropped.
    pub fn set_pixel(&mut self, layer: u8, x: u32, y: u32, color: u8)
        requires
            old(self).wf(),
            layer < LAYERS,
        ensures
            final(self).wf(),
            final(self)@ == set_pixel_spec(old(self)@, layer as int, x as int, y as int, color),
    {
        if x >= self.width || y >= self.height {
            return;
        }
        proof { lemma_pixel_in_layer(self.width, self.height, x as int, y as int); }
        let n = (self.width * self.height) / 2;
        let offset = y * (self.width / 2) + x / 2;
        assert(layer * n <= 3 * n) by (nonlinear_arith) requires layer < LAYERS;
        let i = (layer as u32 * n + offset) as usize;
        let b = self.layers[i];
        self.layers[i] = with_nibble_exec(b, x, color);
    }

    /// The composite of all layers, as `composite` describes it.
    pub fn composite(&self) -> (r: Vec<u8>)
        requires
            self.wf(),
        ensures
            r@ == composite(self@),
    {
        let n = ((self.width * self.height) / 2) as usize;
        let mut r: Vec<u8> = Vec::with_capacity(n);
        let mut i: usize = 0;
        while i < n
            invariant
                self.wf(),
                n == layer_size(self@.width, self@.height),
                i <= n,
                r@ == composite(self@).subrange(0, i as int),
            decreases n - i,
        {
            let c = over_byte_exec(self.layers[i], self.layers[n + i]);
            let c = over_byte_exec(c, self.layers[2 * n + i]);
            let c = over_byte_exec(c, self.layers[3 * n + i]);
            r.push(c);
            i += 1;
            assert(r@ =~= composite(self@).subrange(0, i as int));
        }
        assert(r@ =~= composite(self@));
        r
    }

    /// Composites the layers and hands the frame and palette to the display;
    /// `frame()` is then that frame.
    pub fn render(&mut self)
        requires
            old(self).wf(),
        ensures
            final(self)@ == old(self)@,
            final(self).frame() == composite(old(self)@),
    {
        self.composited = self.composite();
        self.display.render(self.composited.as_slice(), self.palette.as_slice());
    }

    /// Takes on a new geometry, resizes every layer, and tells the display.
    fn resize(&mut self, width: u32, height: u32, zoom: u32)
        requires
            old(self).wf(),
            8 <= width,
            width % 2 == 0,
            8 <= height,
            width * height <= MAX_PIXELS,
            1 <= zoom,
        ensures
            final(self).wf(),
            final(self)@ == resized(old(self)@, width, height, zoom),
    {
        let n = ((self.width * self.height) / 2) as usize;
        let m = ((width * height) / 2) as usize;
        assert(width * height >= 64) by (nonlinear_arith) requires 8 <= width, 8 <= height;
        let total = (LAYERS as usize) * m;
        let ghost want = resized(self@, width, height, zoom);
        let mut layers: Vec<u8> = Vec::with_capacity(total);
        let mut i: usize = 0;
        while i < total
            invariant
                self.wf(),
                n == layer_size(self@.width, self@.height),
                m == layer_size(width, height),
                m >= 32,
                total == LAYERS * m,
                want == resized(self@, width, height, zoom),
                i <= total,
                layers@ == want.layers.subrange(0, i as int),
            decreases total - i,
        {
            let l = i / m;
            let k = i % m;
            assert(l < LAYERS) by (nonlinear_arith) requires i < total, total == LAYERS * m, l == i / m, m > 0;
            let b = if k < n {
                assert(l * n + k < LAYERS * n) by (nonlinear_arith) requires l < LAYERS, k < n;
                self.layers[l * n + k]
            } else {
                0
            };
            layers.push(b);
            i += 1;
            assert(layers@ =~= want.layers.subrange(0, i as int));
        }
        assert(layers@ =~= want.layers);
        self.layers = layers;
        self.width = width;
        self.height = height;
        self.zoom = zoom;
        self.display.resize(width, height, zoom);
    }
}

/// Whether bit `j` of `b`, counting from the most significant, is set.
pub open spec fn bit_msb(b: u8, j: int) -> bool {
    (b >> ((7 - j) as u8)) & 1u8 == 1u8
}

/// The 64 pixels of a 1bpp sprite: one byte per row, most significant bit
/// leftmost, set bits in `fg` and clear ones in `bg`.
pub open spec fn sprite1_pixels(src: Seq<u8>, fg: u8, bg: u8) -> Seq<u8> {
    Seq::new(64, |k: int| if bit_msb(src[k / 8], k % 8) { fg } else { bg })
}

/// The 64 pixels of a 4bpp sprite: two pixels per byte, high nibble first.
pub open spec fn sprite4_pixels(src: Seq<u8>) -> Seq<u8> {
    Seq::new(64, |k: int| if k % 2 == 0 { src[k / 2] / 16 } else { src[k / 2] % 16 })
}

/// The first `k` pixels of the 8x8 block `data` drawn with its top-left at (x, y).
pub open spec fn draw_upto(v: ScreenView, data: Seq<u8>, layer: int, x: int, y: int, k: nat) -> ScreenView
    decreases k,
{
    if k == 0 {
        v
    } else {
        let j = k - 1;
        set_pixel_spec(draw_upto(v, data, layer, x, y, j as nat), layer, x + j % 8, y + j / 8, data[j])
    }
}

/// One 16-byte entry of the command list.
#[derive(Debug, Clone, Copy, PartialEq, Eq, Structural)]
pub struct SpriteCommand {
    pub x: u32,
    pub y: u32,
    pub source: u32,
    /// High nibble of the command byte.
    pub op: u8,
    /// Low nibble of the command byte.
    pub layer: u8,
    /// Flip and skip-clear bits; drawing does not use them.
    pub flags: u8,
    /// Foreground in the high nibble, background in the low (1bpp only).
    pub color: u8,
    /// Tiles across minus one in the high nibble, down minus one in the low.
    pub repeat: u8,
}

/// The command stored at `a`.
pub open spec fn command_at(mem: Seq<u8>, a: int) -> SpriteCommand {
    SpriteCommand {
        x: word_at(mem, a),
        y: word_at(mem, a + 4),
        source: word_at(mem, a + 8),
        op: mem[a + 12] / 16,
        layer: mem[a + 12] % 16,
        flags: mem[a + 13],
        color: mem[a + 14],
        repeat: mem[a + 15],
    }
}

pub open spec fn tiles_across(c: SpriteCommand) -> int {
    c.repeat / 16 + 1
}

pub open spec fn tiles_down(c: SpriteCommand) -> int {
    c.repeat % 16 + 1
}

/// Bytes of sprite data per tile.
pub open spec fn tile_bytes(c: SpriteCommand) -> int {
    if c.op == COMMAND_SPRITE1 { 8 } else { 32 }
}

/// The pixels of tile `t` (row-major) of a sprite command.
pub open spec fn tile_pixels(mem: Seq<u8>, c: SpriteCommand, t: int) -> Seq<u8> {
    let src = c.source + tile_bytes(c) * t;
    if c.op == COMMAND_SPRITE1 {
        sprite1_pixels(mem.subrange(src, src + 8), c.color / 16, c.color % 16)
    } else {
        sprite4_pixels(mem.subrange(src, src + 32))
    }
}

/// The first `t` tiles of a sprite command drawn: tile `k` sits
/// `8 * (k % across)` pixels right and `8 * (k / across)` pixels down.
pub open spec fn blit_upto(v: ScreenView, mem: Seq<u8>, c: SpriteCommand, t: nat) -> ScreenView
    decreases t,
{
    if t == 0 {
        v
    } else {
        let k = t - 1;
        draw_upto(blit_upto(v, mem, c, k as nat), tile_pixels(mem, c, k), c.layer as int,
            c.x + 8 * (k % tiles_across(c)), c.y + 8 * (k / tiles_across(c)), 64)
    }
}

/// `v` with layer `layer` zeroed.
pub open spec fn cleared(v: ScreenView, layer: int) -> ScreenView {
    let n = layer_size(v.width, v.height);
    ScreenView { layers: Seq::new(v.layers.len(), |i: int| if layer * n <= i < layer * n + n { 0u8 } else { v.layers[i] }), ..v }
}

/// The effect of the command at `a`.
pub open spec fn command_spec(v: ScreenView, mem: Seq<u8>, a: int) -> Result<ScreenView, Fault> {
    let c = command_at(mem, a);
    if c.layer >= LAYERS {
        Err(Fault::BadCommand)
    } else if c.op == COMMAND_CLEAR {
        Ok(cleared(v, c.layer as int))
    } else if c.op == COMMAND_SPRITE1 || c.op == COMMAND_SPRITE4 {
        if c.source + tile_bytes(c) * tiles_across(c) * tiles_down(c) > MEM_SIZE {
            Err(Fault::MemoryOutOfRange)
        } else {
            Ok(blit_upto(v, mem, c, (tiles_across(c) * tiles_down(c)) as nat))
        }
    } else {
        Err(Fault::BadCommand)
    }
}

/// The first `count` commands of the list at `base` carried out in order:
/// the state they leave and the outcome. The first failure ends the list,
/// and the state is then the one the commands before it left.
pub open spec fn commands_run(v: ScreenView, mem: Seq<u8>, base: int, count: nat) -> (ScreenView, Result<(), Fault>)
    decreases count,
{
    if count == 0 {
        (v, Ok(()))
    } else {
        let k = count - 1;
        let (v2, r2) = commands_run(v, mem, base, k as nat);
        if r2 is Err {
            (v2, r2)
        } else if base + COMMAND_SIZE * (k + 1) > MEM_SIZE {
            (v2, Err(Fault::MemoryOutOfRange))
        } else {
            match command_spec(v2, mem, base + COMMAND_SIZE * k) {
                Ok(v3) => (v3, Ok(())),
                Err(f) => (v2, Err(f)),
            }
        }
    }
}

/// A block whose left edge lies at or past the right edge of the screen draws nothing.
pub proof fn lemma_draw_offscreen(v: ScreenView, data: Seq<u8>, layer: int, x: int, y: int, k: nat)
    requires
        x >= v.width,
    ensures
        draw_upto(v, data, layer, x, y, k) == v,
    decreases k,
{
    if k > 0 {
        lemma_draw_offscreen(v, data, layer, x, y, (k - 1) as nat);
    }
}

/// A block whose top edge lies at or below the bottom edge of the screen draws nothing.
pub proof fn lemma_draw_below(v: ScreenView, data: Seq<u8>, layer: int, x: int, y: int, k: nat)
    requires
        y >= v.height,
    ensures
        draw_upto(v, data, layer, x, y, k) == v,
    decreases k,
{
    if k > 0 {
        lemma_draw_below(v, data, layer, x, y, (k - 1) as nat);
    }
}

/// Whether `addr` is one of the sixteen palette registers.
pub open spec fn is_palette(addr: u32) -> bool {
    SCREEN_PALETTE0 <= addr <= SCREEN_PALETTE15 && (addr - SCREEN_PALETTE0) % 4 == 0
}

/// The effect of a word written to screen register `addr`: the state it
/// leaves and the outcome. A failed write leaves the state as it was, but for
/// a command list, which keeps what the commands before the failing one did.
pub open spec fn screen_write_spec(v: ScreenView, mem: Seq<u8>, addr: u32, value: u32) -> (ScreenView, Result<(), Fault>) {
    if addr == SCREEN_VECTOR {
        (ScreenView { vector: value, ..v }, Ok(()))
    } else if addr == SCREEN_WIDTH {
        (resized(v, clamp_width(value, v.height), v.height, v.zoom), Ok(()))
    } else if addr == SCREEN_HEIGHT {
        (resized(v, v.width, clamp_dim(value, v.width), v.zoom), Ok(()))
    } else if addr == SCREEN_ZOOM {
        (resized(v, v.width, v.height, if value < 1 { 1 } else { value }), Ok(()))
    } else if addr == SCREEN_CMD_LENGTH {
        (ScreenView { cmd_length: value, ..v }, Ok(()))
    } else if addr == SCREEN_CMD_ADDR {
        commands_run(v, mem, value as int, v.cmd_length as nat)
    } else if is_palette(addr) {
        (ScreenView { palette: v.palette.update((addr - SCREEN_PALETTE0) / 4, value), ..v }, Ok(()))
    } else {
        (v, Err(Fault::UnknownRegister))
    }
}

/// The word read from screen register `addr`.
pub open spec fn screen_read_spec(v: ScreenView, addr: u32) -> Result<u32, Fault> {
    if addr == SCREEN_VECTOR {
        Ok(v.vector)
    } else if addr == SCREEN_WIDTH {
        Ok(v.width)
    } else if addr == SCREEN_HEIGHT {
        Ok(v.height)
    } else if addr == SCREEN_ZOOM {
        Ok(v.zoom)
    } else if addr == SCREEN_CMD_LENGTH {
        Ok(v.cmd_length)
    } else if is_palette(addr) {
        Ok(v.palette[(addr - SCREEN_PALETTE0) / 4])
    } else {
        Err(Fault::UnknownRegister)
    }
}

/// Where the byte at `addr` of a layer window lives in `v.layers`, if the
/// address falls inside a layer.
pub open spec fn layer_byte(v: ScreenView, addr: u32) -> Option<int> {
    let off = addr - SCREEN_LAYER0;
    let len = SCREEN_LAYER_LENGTH as int;
    let n = layer_size(v.width, v.height);
    if addr >= SCREEN_LAYER0 && off / len < LAYERS && off % len < n {
        Some((off / len) * n + off % len)
    } else {
        None
    }
}

/// An 8x8 block of palette indices.
pub struct Sprite {
    data: Vec<u8>,
}

impl View for Sprite {
    type V = Seq<u8>;

    closed spec fn view(&self) -> Seq<u8> {
        self.data@
    }
}

impl Sprite {
    /// A sprite of 64 pixels of index 0.
    pub fn new() -> (r: Self)
        ensures
            r@ == Seq::new(64, |i: int| 0u8),
    {
        Sprite { data: zeros(64) }
    }

    /// Fills the sprite from the 1bpp pattern at `addr`.
    pub fn read_1bpp(&mut self, addr: u32, fg: u8, bg: u8, dma: &DirectMemoryAccess)
        requires
            addr + 8 <= MEM_SIZE,
        ensures
            final(self)@ == sprite1_pixels(dma@.subrange(addr as int, addr + 8), fg, bg),
    {
        let mut src = [0u8; 8];
        dma.read(addr, &mut src);
        let ghost want = sprite1_pixels(dma@.subrange(addr as int, addr + 8), fg, bg);
        let mut data: Vec<u8> = Vec::with_capacity(64);
        let mut k: usize = 0;
        while k < 64
            invariant
                k <= 64,
                src@ == dma@.subrange(addr as int, addr + 8),
                want == sprite1_pixels(src@, fg, bg),
                data@ == want.subrange(0, k as int),
            decreases 64 - k,
        {
            let byte = src[k / 8];
            let j = (k % 8) as u8;
            let bit = (byte >> (7u8 - j)) & 1u8;
            data.push(if bit == 1u8 { fg } else { bg });
            k += 1;
            assert(data@ =~= want.subrange(0, k as int));
        }
        assert(data@ =~= want);
        self.data = data;
    }

    /// Fills the sprite from the 4bpp pattern at `addr`.
    pub fn read_4bpp(&mut self, addr: u32, dma: &DirectMemoryAccess)
        requires
            addr + 32 <= MEM_SIZE,
        ensures
            final(self)@ == sprite4_pixels(dma@.subrange(addr as int, addr + 32)),
    {
        let mut src = [0u8; 32];
        dma.read(addr, &mut src);
        let ghost want = sprite4_pixels(dma@.subrange(addr as int, addr + 32));
        let mut data: Vec<u8> = Vec::with_capacity(64);
        let mut k: usize = 0;
        while k < 64
            invariant
                k <= 64,
                src@ == dma@.subrange(addr as int, addr + 32),
                want == sprite4_pixels(src@),
                data@ == want.subrange(0, k as int),
            decreases 64 - k,
        {
            let pp = src[k / 2];
            data.push(if k % 2 == 0 { pp / 16 } else { pp % 16 });
            k += 1;
            assert(data@ =~= want.subrange(0, k as int));
        }
        assert(data@ =~= want);
        self.data = data;
    }

    /// Draws the sprite on `layer` with its top-left pixel at (x, y).
    pub fn draw<D: Display>(&self, layer: u8, x: u32, y: u32, screen: &mut ScreenDevice<D>)
        requires
            old(screen).wf(),
            layer < LAYERS,
            self@.len() == 64,
        ensures
            final(screen).wf(),
            final(screen)@ == draw_upto(old(screen)@, self@, layer as int, x as int, y as int, 64),
    {
        let mut k: usize = 0;
        while k < 64
            invariant
                k <= 64,
                layer < LAYERS,
                self@.len() == 64,
                screen.wf(),
                screen@ == draw_upto(old(screen)@, self@, layer as int, x as int, y as int, k as nat),
            decreases 64 - k,
        {
            let px = x as u64 + (k % 8) as u64;
            let py = y as u64 + (k / 8) as u64;
            if px <= 0xFFFF_FFFF && py <= 0xFFFF_FFFF {
                screen.set_pixel(layer, px as u32, py as u32, self.data[k]);
            }
            k += 1;
        }
    }
}

impl SpriteCommand {
    /// The command stored at `addr`.
    pub fn read(addr: u32, dma: &DirectMemoryAccess) -> (r: Self)
        requires
            addr + 16 <= MEM_SIZE,
        ensures
            r == command_at(dma@, addr as int),
    {
        let op_layer = dma.read_u8(addr + 12);
        SpriteCommand {
            x: dma.read_u32(addr),
            y: dma.read_u32(addr + 4),
            source: dma.read_u32(addr + 8),
            op: op_layer / 16,
            layer: op_layer % 16,
            flags: dma.read_u8(addr + 13),
            color: dma.read_u8(addr + 14),
            repeat: dma.read_u8(addr + 15),
        }
    }
}

impl<D: Display> ScreenDevice<D> {
    /// Zeroes every byte of `layer`.
    pub fn cmd_clear(&mut self, layer: u8)
        requires
            old(self).wf(),
            layer < LAYERS,
        ensures
            final(self).wf(),
            final(self)@ == cleared(old(self)@, layer as int),
    {
        let n = ((self.width * self.height) / 2) as usize;
        assert(layer * n + n <= LAYERS * n) by (nonlinear_arith) requires layer < LAYERS;
        let start = layer as usize * n;
        let ghost want = cleared(self@, layer as int);
        let mut i: usize = start;
        while i < start + n
            invariant
                self.wf(),
                n == layer_size(self@.width, self@.height),
                start == layer * n,
                start + n <= self@.layers.len(),
                start <= i <= start + n,
                want == cleared(old(self)@, layer as int),
                self@ == (ScreenView { layers: self@.layers, ..old(self)@ }),
                forall|k: int| 0 <= k < self@.layers.len() ==> #[trigger] self@.layers[k]
                    == if start <= k < i { 0u8 } else { old(self)@.layers[k] },
            decreases start + n - i,
        {
            self.layers[i] = 0;
            i += 1;
        }
        assert(self@.layers =~= want.layers);
    }

    /// Draws the tiles of a SPRITE1 or SPRITE4 command.
    fn cmd_sprite(&mut self, c: SpriteCommand, dma: &DirectMemoryAccess)
        requires
            old(self).wf(),
            c.layer < LAYERS,
            c.op == COMMAND_SPRITE1 || c.op == COMMAND_SPRITE4,
            c.source + tile_bytes(c) * tiles_across(c) * tiles_down(c) <= MEM_SIZE,
        ensures
            final(self).wf(),
            final(self)@ == blit_upto(old(self)@, dma@, c, (tiles_across(c) * tiles_down(c)) as nat),
    {
        let across = (c.repeat / 16) as u32 + 1;
        let down = (c.repeat % 16) as u32 + 1;
        let stride: u32 = if c.op == COMMAND_SPRITE1 { 8 } else { 32 };
        assert(across * down <= 256) by (nonlinear_arith) requires across <= 16, down <= 16;
        let tiles = across * down;
        let mut t: u32 = 0;
        while t < tiles
            invariant
                self.wf(),
                c.layer < LAYERS,
                c.op == COMMAND_SPRITE1 || c.op == COMMAND_SPRITE4,
                across == tiles_across(c),
                down == tiles_down(c),
                tiles == across * down,
                stride == tile_bytes(c),
                c.source + stride * across * down <= MEM_SIZE,
                t <= tiles,
                self@ == blit_upto(old(self)@, dma@, c, t as nat),
            decreases tiles - t,
        {
            assert(stride * t + stride <= stride * across * down) by (nonlinear_arith)
                requires t < tiles, tiles == across * down, stride >= 0;
            let source = c.source + stride * t;
            let x = c.x as u64 + 8 * (t % across) as u64;
            let y = c.y as u64 + 8 * (t / across) as u64;
            let mut sprite = Sprite::new();
            if c.op == COMMAND_SPRITE1 {
                sprite.read_1bpp(source, c.color / 16, c.color % 16, dma);
            } else {
                sprite.read_4bpp(source, dma);
            }
            assert(sprite@ == tile_pixels(dma@, c, t as int));
            if x <= 0xFFFF_FFFF && y <= 0xFFFF_FFFF {
                sprite.draw(c.layer, x as u32, y as u32, self);
            } else {
                proof {
                    if x > 0xFFFF_FFFF {
                        lemma_draw_offscreen(self@, sprite@, c.layer as int, x as int, y as int, 64);
                    } else {
                        lemma_draw_below(self@, sprite@, c.layer as int, x as int, y as int, 64);
                    }
                }
            }
            t += 1;
        }
    }

    /// Carries out the command stored at `addr`.
    pub fn process_command(&mut self, addr: u32, dma: &DirectMemoryAccess) -> (r: Result<(), Fault>)
        requires
            old(self).wf(),
            addr + 16 <= MEM_SIZE,
        ensures
            final(self).wf(),
            command_spec(old(self)@, dma@, addr as int) matches Ok(v2) ==> r is Ok && final(self)@ == v2,
            command_spec(old(self)@, dma@, addr as int) matches Err(f) ==> r == Err::<(), Fault>(f) && final(self)@ == old(self)@,
    {
        let c = SpriteCommand::read(addr, dma);
        if c.layer as u32 >= LAYERS {
            return Err(Fault::BadCommand);
        }
        if c.op == COMMAND_CLEAR {
            self.cmd_clear(c.layer);
            Ok(())
        } else if c.op == COMMAND_SPRITE1 || c.op == COMMAND_SPRITE4 {
            let stride: u64 = if c.op == COMMAND_SPRITE1 { 8 } else { 32 };
            let across = (c.repeat / 16) as u64 + 1;
            let down = (c.repeat % 16) as u64 + 1;
            assert(across * down <= 256) by (nonlinear_arith) requires across <= 16, down <= 16;
            let tiles = across * down;
            assert(stride * tiles == tile_bytes(c) * tiles_across(c) * tiles_down(c)) by (nonlinear_arith)
                requires stride == tile_bytes(c), across == tiles_across(c), down == tiles_down(c), tiles == across * down;
            if c.source as u64 + stride * tiles > MEM_SIZE as u64 {
                return Err(Fault::MemoryOutOfRange);
            }
            self.cmd_sprite(c, dma);
            Ok(())
        } else {
            Err(Fault::BadCommand)
        }
    }

    /// Carries out the `cmd_length` commands of the list at `base`, in order,
    /// stopping at the first that fails.
    fn process_commands(&mut self, base: u32, dma: &DirectMemoryAccess) -> (r: Result<(), Fault>)
        requires
            old(self).wf(),
        ensures
            final(self).wf(),
            (final(self)@, r) == commands_run(old(self)@, dma@, base as int, old(self)@.cmd_length as nat),
    {
        let count = self.cmd_length;
        let mut i: u32 = 0;
        while i < count
            invariant
                self.wf(),
                count == old(self)@.cmd_length,
                i <= count,
                commands_run(old(self)@, dma@, base as int, i as nat) == (self@, Ok::<(), Fault>(())),
            decreases count - i,
        {
            let addr = base as u64 + 16 * i as u64;
            if addr + 16 > MEM_SIZE as u64 {
                proof { lemma_commands_stop(old(self)@, dma@, base as int, (i + 1) as nat, count as nat); }
                return Err(Fault::MemoryOutOfRange);
            }
            let ghost before = self@;
            let r = self.process_command(addr as u32, dma);
            if let Err(f) = r {
                proof { lemma_commands_stop(old(self)@, dma@, base as int, (i + 1) as nat, count as nat); }
                return Err(f);
            }
            i += 1;
        }
        Ok(())
    }

    /// Writes a word to a register (see `screen_write_spec`).
    pub fn write_register(&mut self, addr: u32, value: u32, dma: &DirectMemoryAccess) -> (r: Result<(), Fault>)
        requires
            old(self).wf(),
        ensures
            final(self).wf(),
            (final(self)@, r) == screen_write_spec(old(self)@, dma@, addr, value),
    {
        assert(self.width <= MAX_PIXELS / 8 && self.height <= MAX_PIXELS / 8) by (nonlinear_arith)
            requires 8 <= self.width, 8 <= self.height, self.width * self.height <= MAX_PIXELS;
        if addr == SCREEN_VECTOR {
            self.vector = value;
            Ok(())
        } else if addr == SCREEN_WIDTH {
            let c = clamp_dim_exec(value, self.height);
            let w = c - c % 2;
            assert(w * self.height <= MAX_PIXELS) by (nonlinear_arith)
                requires w <= c, c * self.height <= MAX_PIXELS;
            self.resize(w, self.height, self.zoom);
            Ok(())
        } else if addr == SCREEN_HEIGHT {
            let h = clamp_dim_exec(value, self.width);
            self.resize(self.width, h, self.zoom);
            Ok(())
        } else if addr == SCREEN_ZOOM {
            let z = if value < 1 { 1 } else { value };
            self.resize(self.width, self.height, z);
            Ok(())
        } else if addr == SCREEN_CMD_LENGTH {
            self.cmd_length = value;
            Ok(())
        } else if addr == SCREEN_CMD_ADDR {
            self.process_commands(value, dma)
        } else if SCREEN_PALETTE0 <= addr && addr <= SCREEN_PALETTE15 && (addr - SCREEN_PALETTE0) % 4 == 0 {
            let i = ((addr - SCREEN_PALETTE0) / 4) as usize;
            self.palette[i] = value;
            Ok(())
        } else {
            Err(Fault::UnknownRegister)
        }
    }

    /// Reads a word from a register (see `screen_read_spec`).
    pub fn read_register(&self, addr: u32) -> (r: Result<u32, Fault>)
        requires
            self.wf(),
        ensures
            r == screen_read_spec(self@, addr),
    {
        if addr == SCREEN_VECTOR {
            Ok(self.vector)
        } else if addr == SCREEN_WIDTH {
            Ok(self.width)
        } else if addr == SCREEN_HEIGHT {
            Ok(self.height)
        } else if addr == SCREEN_ZOOM {
            Ok(self.zoom)
        } else if addr == SCREEN_CMD_LENGTH {
            Ok(self.cmd_length)
        } else if SCREEN_PALETTE0 <= addr && addr <= SCREEN_PALETTE15 && (addr - SCREEN_PALETTE0) % 4 == 0 {
            Ok(self.palette[((addr - SCREEN_PALETTE0) / 4) as usize])
        } else {
            Err(Fault::UnknownRegister)
        }
    }

    /// Where the layer byte at `addr` lives, if any.
    fn layer_byte_exec(&self, addr: u32) -> (r: Option<usize>)
        requires
            self.wf(),
        ensures
            r matches Some(i) ==> layer_byte(self@, addr) == Some(i as int) && i < self@.layers.len(),
            r is None ==> layer_byte(self@, addr) is None,
    {
        if addr < SCREEN_LAYER0 {
            return None;
        }
        let off = addr - SCREEN_LAYER0;
        let l = off / SCREEN_LAYER_LENGTH;
        let k = off % SCREEN_LAYER_LENGTH;
        let n = (self.width * self.height) / 2;
        if l >= LAYERS || k >= n {
            return None;
        }
        assert(l * n + k < LAYERS * n) by (nonlinear_arith) requires l < LAYERS, k < n;
        Some((l * n + k) as usize)
    }

    /// Writes one byte of a layer window.
    pub fn write_layer(&mut self, addr: u32, value: u8) -> (r: Result<(), Fault>)
        requires
            old(self).wf(),
        ensures
            final(self).wf(),
            layer_byte(old(self)@, addr) matches Some(i) ==> r is Ok
                && final(self)@ == (ScreenView { layers: old(self)@.layers.update(i, value), ..old(self)@ }),
            layer_byte(old(self)@, addr) is None ==> r == Err::<(), Fault>(Fault::UnknownRegister)
                && final(self)@ == old(self)@,
    {
        match self.layer_byte_exec(addr) {
            Some(i) => {
                self.layers[i] = value;
                Ok(())
            },
            None => Err(Fault::UnknownRegister),
        }
    }

    /// Reads one byte of a layer window.
    pub fn read_layer(&self, addr: u32) -> (r: Result<u8, Fault>)
        requires
            self.wf(),
        ensures
            layer_byte(self@, addr) matches Some(i) ==> r == Ok::<u8, Fault>(self@.layers[i]),
            layer_byte(self@, addr) is None ==> r == Err::<u8, Fault>(Fault::UnknownRegister),
    {
        match self.layer_byte_exec(addr) {
            Some(i) => Ok(self.layers[i]),
            None => Err(Fault::UnknownRegister),
        }
    }
}

impl<D: Display> Device for ScreenDevice<D> {
    open spec fn wf(&self) -> bool {
        screen_wf(self@)
    }

    open spec fn read_u8_post(&self, new: &Self, mem: Seq<u8>, addr: u32, r: Result<u8, Fault>) -> bool {
        &&& new@ == self@
        &&& layer_byte(self@, addr) matches Some(i) ==> r == Ok::<u8, Fault>(self@.layers[i])
        &&& layer_byte(self@, addr) is None ==> r == Err::<u8, Fault>(Fault::UnknownRegister)
    }

    open spec fn write_u8_post(&self, new: &Self, mem: Seq<u8>, addr: u32, value: u8, r: Result<(), Fault>) -> bool {
        &&& layer_byte(self@, addr) matches Some(i) ==> r is Ok
            && new@ == (ScreenView { layers: self@.layers.update(i, value), ..self@ })
        &&& layer_byte(self@, addr) is None ==> r == Err::<(), Fault>(Fault::UnknownRegister) && new@ == self@
    }

    open spec fn read_u32_post(&self, new: &Self, mem: Seq<u8>, addr: u32, r: Result<u32, Fault>) -> bool {
        new@ == self@ && r == screen_read_spec(self@, addr)
    }

    open spec fn write_u32_post(&self, new: &Self, mem: Seq<u8>, addr: u32, value: u32, r: Result<(), Fault>) -> bool {
        (new@, r) == screen_write_spec(self@, mem, addr, value)
    }

    fn read_u8(&mut self, addr: u32, dma: &mut DirectMemoryAccess) -> (r: Result<u8, Fault>) {
        self.read_layer(addr)
    }

    fn write_u8(&mut self, addr: u32, value: u8, dma: &mut DirectMemoryAccess) -> (r: Result<(), Fault>) {
        self.write_layer(addr, value)
    }

    fn read_u32(&mut self, addr: u32, dma: &mut DirectMemoryAccess) -> (r: Result<u32, Fault>) {
        self.read_register(addr)
    }

    fn write_u32(&mut self, addr: u32, value: u32, dma: &mut DirectMemoryAccess) -> (r: Result<(), Fault>) {
        self.write_register(addr, value, dma)
    }
}

/// A width or height as the WIDTH and HEIGHT registers take it.
fn clamp_dim_exec(value: u32, other: u32) -> (r: u32)
    requires
        8 <= other <= MAX_PIXELS / 8,
    ensures
        r == clamp_dim(value, other),
        8 <= r,
        r * other <= MAX_PIXELS,
        other * r <= MAX_PIXELS,
{
    assert(MAX_PIXELS / other >= 8) by (nonlinear_arith) requires 8 <= other <= MAX_PIXELS / 8;
    assert((MAX_PIXELS / other) * other <= MAX_PIXELS) by (nonlinear_arith) requires 8 <= other;
    let lo = if value < 8 { 8 } else { value };
    assert(lo <= MAX_PIXELS / other ==> lo * other <= MAX_PIXELS) by (nonlinear_arith) requires 8 <= other;
    let r = if lo > MAX_PIXELS / other { MAX_PIXELS / other } else { lo };
    assert(other * r == r * other) by (nonlinear_arith);
    r
}

/// Once the command list fails, later commands change neither the state nor the outcome.
pub proof fn lemma_commands_stop(v: ScreenView, mem: Seq<u8>, base: int, a: nat, b: nat)
    requires
        commands_run(v, mem, base, a).1 is Err,
        a <= b,
    ensures
        commands_run(v, mem, base, b) == commands_run(v, mem, base, a),
    decreases b - a,
{
    if a < b {
        lemma_commands_stop(v, mem, base, a, (b - 1) as nat);
    }
}

} // verus!
