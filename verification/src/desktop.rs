//! The screen tile encoder: dirty-tile diffing of BGRA frames, extraction of
//! RGB tiles and the keyframe policy.

use vstd::prelude::*;
use vstd::string::*;
use crate::protocol::default_encoding;

verus! {

/// The largest extent of a screen, along either axis, that the 16-bit fields
/// of tiles and of the size announcement can state.
pub const MAX_SCREEN_EXTENT: u32 = 65535;

/// Tile size in pixels (64x64).
pub const TILE_SIZE: u32 = 64;

/// Encoding types for DESKTOP_FRAME.
pub const ENCODING_JPEG: u8 = 0;
pub const ENCODING_PNG: u8 = 1;
pub const ENCODING_RAW: u8 = 2;

/// Frame flags.
pub const FLAG_KEYFRAME: u8 = 0x01;

/// Desktop session configuration.
#[derive(Debug, Clone)]
pub struct DesktopConfig {
    pub quality: u8,
    pub fps: u16,
    pub encoding: String,
}

impl Default for DesktopConfig {
    fn default() -> (c: Self)
        ensures
            c.quality == 70,
            c.fps == 15,
            c.encoding@ == "jpeg"@,
    {
        Self { quality: 70, fps: 15, encoding: default_encoding() }
    }
}

/// A session configuration as a mathematical value.
pub struct ConfigView {
    pub quality: u8,
    pub fps: u16,
    pub encoding: Seq<char>,
}

impl View for DesktopConfig {
    type V = ConfigView;

    open spec fn view(&self) -> ConfigView {
        ConfigView { quality: self.quality, fps: self.fps, encoding: self.encoding@ }
    }
}

/// A single encoded tile.
#[derive(Debug)]
pub struct TileData {
    pub x: u16,
    pub y: u16,
    pub w: u16,
    pub h: u16,
    pub data: Vec<u8>,
    pub flags: u8,
}

/// A tile that is due for encoding: its place on the screen in pixels, its
/// RGB bytes and its flags.
pub struct RawTile {
    pub x: nat,
    pub y: nat,
    pub w: nat,
    pub h: nat,
    pub rgb: Seq<u8>,
    pub flags: u8,
}

/// The encoder's state as a mathematical value.
pub struct EncoderView {
    pub width: nat,
    pub height: nat,
    pub quality: u8,
    pub prev_frame: Seq<u8>,
    pub force_keyframe: bool,
}

/// The extent of the screen that an encoder works on, for a screen of `n`
/// pixels along an axis: all of it, up to what the 16-bit fields of a tile
/// can state.
pub open spec fn screen_extent(n: u32) -> nat {
    if n > MAX_SCREEN_EXTENT {
        MAX_SCREEN_EXTENT as nat
    } else {
        n as nat
    }
}

/// The number of cells that cover `extent` pixels.
pub open spec fn cells_across(extent: int) -> int {
    (extent + 63) / 64
}

/// The size of cell `t` along an axis of `extent` pixels: 64, or what is left
/// at the edge.
pub open spec fn cell_extent(extent: int, t: int) -> int
    recommends
        t < cells_across(extent),
{
    if extent - t * 64 < 64 {
        extent - t * 64
    } else {
        64
    }
}

/// A quality within the range that the encoder accepts.
pub open spec fn clamp_quality(q: u8) -> u8 {
    if q < 1 {
        1
    } else if q > 100 {
        100
    } else {
        q
    }
}

/// Whether row `y` of the tile at pixel column `px`, `tw` pixels wide, is
/// out of bounds in either frame or differs between them. Both frames have
/// `stride` bytes per row: a row is compared with the same region of the
/// previous frame.
pub open spec fn row_differs(frame: Seq<u8>, stride: int, prev: Seq<u8>, px: int, y: int, tw: int) -> bool {
    let start = y * stride + px * 4;
    ||| start + tw * 4 > frame.len()
    ||| start + tw * 4 > prev.len()
    ||| frame.subrange(start, start + tw * 4) != prev.subrange(start, start + tw * 4)
}

/// Whether the tile at `(px, py)` of size `tw` by `th` changed between the
/// previous frame and `frame`.
pub open spec fn tile_differs(
    frame: Seq<u8>,
    stride: int,
    prev: Seq<u8>,
    px: int,
    py: int,
    tw: int,
    th: int,
) -> bool {
    exists|y: int|
        py <= y < py + th && #[trigger] row_differs(frame, stride, prev, px, y, tw)
}

/// The RGB bytes of the BGRA pixel at byte `offset`: alpha dropped, channels
/// swapped; black where the pixel lies outside the frame.
pub open spec fn pixel_rgb(frame: Seq<u8>, offset: int) -> Seq<u8> {
    if offset + 2 < frame.len() {
        seq![frame[offset + 2], frame[offset + 1], frame[offset]]
    } else {
        seq![0u8, 0u8, 0u8]
    }
}

/// The RGB bytes of the first `cols` pixels of the row that starts at byte
/// `row_start`.
pub open spec fn row_rgb(frame: Seq<u8>, row_start: int, cols: int) -> Seq<u8>
    decreases cols,
{
    if cols <= 0 {
        Seq::empty()
    } else {
        row_rgb(frame, row_start, cols - 1) + pixel_rgb(
            frame,
            row_start + (cols - 1) * 4,
        )
    }
}

/// The RGB bytes of the first `rows` rows of the tile at `(px, py)`, `tw`
/// pixels wide, row by row.
pub open spec fn tile_rgb(frame: Seq<u8>, stride: int, px: int, py: int, tw: int, rows: int) -> Seq<
    u8,
>
    decreases rows,
{
    if rows <= 0 {
        Seq::empty()
    } else {
        tile_rgb(frame, stride, px, py, tw, rows - 1) + row_rgb(
            frame,
            (py + rows - 1) * stride + px * 4,
            tw,
        )
    }
}

pub proof fn lemma_row_rgb_len(frame: Seq<u8>, row_start: int, cols: int)
    requires
        cols >= 0,
    ensures
        row_rgb(frame, row_start, cols).len() == 3 * cols,
    decreases cols,
{
    if cols > 0 {
        lemma_row_rgb_len(frame, row_start, cols - 1);
    }
}

pub proof fn lemma_tile_rgb_len(frame: Seq<u8>, stride: int, px: int, py: int, tw: int, rows: int)
    requires
        tw >= 0,
        rows >= 0,
    ensures
        tile_rgb(frame, stride, px, py, tw, rows).len() == 3 * tw * rows,
    decreases rows,
{
    let a = 3 * tw;
    if rows > 0 {
        lemma_tile_rgb_len(frame, stride, px, py, tw, rows - 1);
        lemma_row_rgb_len(frame, (py + rows - 1) * stride + px * 4, tw);
        assert(a * (rows - 1) + a == a * rows) by (nonlinear_arith);
    } else {
        assert(a * rows == 0) by (nonlinear_arith)
            requires
                rows == 0,
        ;
    }
}

/// Whether the next frame of an encoder in state `e` is a keyframe.
pub open spec fn keyframe_due(e: EncoderView) -> bool {
    e.force_keyframe || e.prev_frame.len() == 0
}

/// The flags of a tile.
pub open spec fn tile_flags(keyframe: bool) -> u8 {
    if keyframe {
        FLAG_KEYFRAME
    } else {
        0
    }
}

/// The tile of cell `(tx, ty)` as it is due for encoding.
pub open spec fn cell_tile(e: EncoderView, frame: Seq<u8>, stride: int, keyframe: bool, tx: int, ty: int) -> RawTile {
    let tw = cell_extent(e.width as int, tx);
    let th = cell_extent(e.height as int, ty);
    RawTile {
        x: (tx * 64) as nat,
        y: (ty * 64) as nat,
        w: tw as nat,
        h: th as nat,
        rgb: tile_rgb(frame, stride, tx * 64, ty * 64, tw, th),
        flags: tile_flags(keyframe),
    }
}

/// Whether cell `(tx, ty)` is due: always in a keyframe, else where it
/// differs from the previous frame.
pub open spec fn cell_due(e: EncoderView, frame: Seq<u8>, stride: int, keyframe: bool, tx: int, ty: int) -> bool {
    keyframe || tile_differs(
        frame,
        stride,
        e.prev_frame,
        tx * 64,
        ty * 64,
        cell_extent(e.width as int, tx),
        cell_extent(e.height as int, ty),
    )
}

/// The tiles due from the first `cols` cells of row `ty`, left to right.
pub open spec fn row_tiles(e: EncoderView, frame: Seq<u8>, stride: int, keyframe: bool, ty: int, cols: int) -> Seq<
    RawTile,
>
    decreases cols,
{
    if cols <= 0 {
        Seq::empty()
    } else if cell_due(e, frame, stride, keyframe, cols - 1, ty) {
        row_tiles(e, frame, stride, keyframe, ty, cols - 1).push(
            cell_tile(e, frame, stride, keyframe, cols - 1, ty),
        )
    } else {
        row_tiles(e, frame, stride, keyframe, ty, cols - 1)
    }
}

/// The tiles due from the first `rows` rows of cells, top to bottom.
pub open spec fn rows_tiles(e: EncoderView, frame: Seq<u8>, stride: int, keyframe: bool, rows: int) -> Seq<
    RawTile,
>
    decreases rows,
{
    if rows <= 0 {
        Seq::empty()
    } else {
        rows_tiles(e, frame, stride, keyframe, rows - 1) + row_tiles(
            e,
            frame,
            stride,
            keyframe,
            rows - 1,
            cells_across(e.width as int),
        )
    }
}

/// The tiles that an encoder in state `e` owes for `frame`, in row-major
/// order of their cells.
pub open spec fn due_tiles(e: EncoderView, frame: Seq<u8>, stride: int) -> Seq<RawTile> {
    rows_tiles(e, frame, stride, keyframe_due(e), cells_across(e.height as int))
}

/// Whether `tile` is the encoding of `raw` by `compress` at `quality`:
/// the geometry, the flags, and for the data a result that
/// `compress` may give for the tile's RGB bytes.
pub open spec fn tile_encodes<E, F: Fn(Vec<u8>, u32, u32, u8) -> Result<Vec<u8>, E>>(
    compress: F,
    tile: TileData,
    raw: RawTile,
    quality: u8,
) -> bool {
    &&& tile.x as int == raw.x
    &&& tile.y as int == raw.y
    &&& tile.w as int == raw.w
    &&& tile.h as int == raw.h
    &&& tile.flags == raw.flags
    &&& exists|rgb: Vec<u8>|
        rgb@ == raw.rgb && #[trigger] call_ensures(
            compress,
            (rgb, raw.w as u32, raw.h as u32, quality),
            Ok::<Vec<u8>, E>(tile.data),
        )
}

/// Whether `tiles` are the encodings of `raw`, one for one and in order.
pub open spec fn tiles_encode<E, F: Fn(Vec<u8>, u32, u32, u8) -> Result<Vec<u8>, E>>(
    compress: F,
    tiles: Seq<TileData>,
    raw: Seq<RawTile>,
    quality: u8,
) -> bool {
    &&& tiles.len() == raw.len()
    &&& forall|i: int|
        0 <= i < tiles.len() ==> tile_encodes(compress, #[trigger] tiles[i], raw[i], quality)
}

/// Whether `compress` may encode the tile `raw`.
pub open spec fn compress_takes_tile<E, F: Fn(Vec<u8>, u32, u32, u8) -> Result<Vec<u8>, E>>(
    compress: F,
    raw: RawTile,
    quality: u8,
) -> bool {
    exists|rgb: Vec<u8>, data: Vec<u8>|
        rgb@ == raw.rgb && #[trigger] call_ensures(
            compress,
            (rgb, raw.w as u32, raw.h as u32, quality),
            Ok::<Vec<u8>, E>(data),
        )
}

/// Whether `compress` may encode the first `n` of the tiles `raw`.
pub open spec fn compress_takes<E, F: Fn(Vec<u8>, u32, u32, u8) -> Result<Vec<u8>, E>>(
    compress: F,
    raw: Seq<RawTile>,
    quality: u8,
    n: int,
) -> bool {
    forall|j: int| 0 <= j < n ==> compress_takes_tile(compress, #[trigger] raw[j], quality)
}

/// Whether `err` is how `compress` may fail on the first of the tiles `raw`
/// that it does not take.
pub open spec fn compress_fails<E, F: Fn(Vec<u8>, u32, u32, u8) -> Result<Vec<u8>, E>>(
    compress: F,
    raw: Seq<RawTile>,
    quality: u8,
    err: E,
) -> bool {
    exists|i: int, rgb: Vec<u8>|
        0 <= i < raw.len() && rgb@ == raw[i].rgb && #[trigger] call_ensures(
            compress,
            (rgb, raw[i].w as u32, raw[i].h as u32, quality),
            Err::<Vec<u8>, E>(err),
        ) && compress_takes(compress, raw, quality, i)
}

/// Whether `compress` accepts every tile that an encoder can hand it.
pub open spec fn accepts_tiles<E, F: Fn(Vec<u8>, u32, u32, u8) -> Result<Vec<u8>, E>>(
    compress: F,
) -> bool {
    forall|rgb: Vec<u8>, w: u32, h: u32, q: u8|
        1 <= w <= 64 && 1 <= h <= 64 && 1 <= q <= 100 && rgb@.len() == 3 * w * h
            ==> #[trigger] call_requires(compress, (rgb, w, h, q))
}

/// A cell of the screen is between 1 and 64 pixels wide and lies on the
/// screen.
pub proof fn lemma_cell_extent(extent: int, t: int)
    requires
        0 <= t < cells_across(extent),
    ensures
        1 <= cell_extent(extent, t) <= 64,
        t * 64 + cell_extent(extent, t) <= extent,
{
}

/// The tile of a due cell stands in the tiles of the whole frame, behind
/// the tiles of the cells before it.
pub proof fn lemma_rows_tiles_prefix(
    e: EncoderView,
    frame: Seq<u8>,
    stride: int,
    keyframe: bool,
    ty: int,
    tx: int,
    rows: int,
)
    requires
        0 <= ty < rows,
        0 <= tx < cells_across(e.width as int),
        cell_due(e, frame, stride, keyframe, tx, ty),
    ensures
        ({
            let at = (rows_tiles(e, frame, stride, keyframe, ty).len() + row_tiles(
                e,
                frame,
                stride,
                keyframe,
                ty,
                tx,
            ).len()) as int;
            at < rows_tiles(e, frame, stride, keyframe, rows).len() && rows_tiles(
                e,
                frame,
                stride,
                keyframe,
                rows,
            )[at] == cell_tile(e, frame, stride, keyframe, tx, ty)
        }),
    decreases rows,
{
    let cols = cells_across(e.width as int);
    if rows == ty + 1 {
        lemma_row_tiles_prefix(e, frame, stride, keyframe, ty, tx, cols);
    } else {
        lemma_rows_tiles_prefix(e, frame, stride, keyframe, ty, tx, rows - 1);
    }
}

/// The same within one row of cells.
pub proof fn lemma_row_tiles_prefix(
    e: EncoderView,
    frame: Seq<u8>,
    stride: int,
    keyframe: bool,
    ty: int,
    tx: int,
    cols: int,
)
    requires
        0 <= tx < cols,
        cell_due(e, frame, stride, keyframe, tx, ty),
    ensures
        ({
            let at = row_tiles(e, frame, stride, keyframe, ty, tx).len() as int;
            at < row_tiles(e, frame, stride, keyframe, ty, cols).len() && row_tiles(
                e,
                frame,
                stride,
                keyframe,
                ty,
                cols,
            )[at] == cell_tile(e, frame, stride, keyframe, tx, ty)
        }),
    decreases cols,
{
    if cols > tx + 1 {
        lemma_row_tiles_prefix(e, frame, stride, keyframe, ty, tx, cols - 1);
    }
}

/// The tiles of the first cells of a row are the first tiles of the row.
pub proof fn lemma_row_tiles_grow(
    e: EncoderView,
    frame: Seq<u8>,
    stride: int,
    keyframe: bool,
    ty: int,
    tx: int,
    cols: int,
)
    requires
        0 <= tx <= cols,
    ensures
        row_tiles(e, frame, stride, keyframe, ty, tx).is_prefix_of(
            row_tiles(e, frame, stride, keyframe, ty, cols),
        ),
    decreases cols,
{
    if cols > tx {
        lemma_row_tiles_grow(e, frame, stride, keyframe, ty, tx, cols - 1);
    }
}

/// The tiles of the first rows and of the first cells of the next row are
/// the first tiles of the whole frame.
pub proof fn lemma_rows_tiles_grow(
    e: EncoderView,
    frame: Seq<u8>,
    stride: int,
    keyframe: bool,
    ty: int,
    tx: int,
    rows: int,
)
    requires
        0 <= ty < rows,
        0 <= tx <= cells_across(e.width as int),
    ensures
        (rows_tiles(e, frame, stride, keyframe, ty) + row_tiles(
            e,
            frame,
            stride,
            keyframe,
            ty,
            tx,
        )).is_prefix_of(rows_tiles(e, frame, stride, keyframe, rows)),
    decreases rows,
{
    let cols = cells_across(e.width as int);
    if rows == ty + 1 {
        lemma_row_tiles_grow(e, frame, stride, keyframe, ty, tx, cols);
    } else {
        lemma_rows_tiles_grow(e, frame, stride, keyframe, ty, tx, rows - 1);
    }
}

/// A quality is clamped into `[1, 100]`: anything above counts as 100,
/// anything below as 1.
pub proof fn lemma_quality_clamped(q: u8)
    ensures
        1 <= clamp_quality(q) <= 100,
        q > 100 ==> clamp_quality(q) == clamp_quality(100),
        q < 1 ==> clamp_quality(q) == clamp_quality(1),
        1 <= q <= 100 ==> clamp_quality(q) == q,
{
}

proof fn lemma_keyframe_row(e: EncoderView, frame: Seq<u8>, stride: int, ty: int, cols: int)
    requires
        cols >= 0,
    ensures
        row_tiles(e, frame, stride, true, ty, cols).len() == cols,
        forall|i: int|
            0 <= i < cols ==> #[trigger] row_tiles(e, frame, stride, true, ty, cols)[i]
                == cell_tile(e, frame, stride, true, i, ty),
    decreases cols,
{
    if cols > 0 {
        lemma_keyframe_row(e, frame, stride, ty, cols - 1);
    }
}

proof fn lemma_keyframe_rows(e: EncoderView, frame: Seq<u8>, stride: int, rows: int)
    requires
        rows >= 0,
    ensures
        rows_tiles(e, frame, stride, true, rows).len() == rows * cells_across(e.width as int),
        forall|i: int|
            0 <= i < rows_tiles(e, frame, stride, true, rows).len() ==> (#[trigger] rows_tiles(
                e,
                frame,
                stride,
                true,
                rows,
            )[i]).flags == FLAG_KEYFRAME,
    decreases rows,
{
    let cols = cells_across(e.width as int);
    if rows > 0 {
        lemma_keyframe_rows(e, frame, stride, rows - 1);
        lemma_keyframe_row(e, frame, stride, rows - 1, cols);
        assert((rows - 1) * cols + cols == rows * cols) by (nonlinear_arith);
        let head = rows_tiles(e, frame, stride, true, rows - 1);
        let tail = row_tiles(e, frame, stride, true, rows - 1, cols);
        assert forall|i: int| 0 <= i < (head + tail).len() implies (#[trigger] (head + tail)[i]).flags
            == FLAG_KEYFRAME by {
            if i >= head.len() {
                assert((head + tail)[i] == tail[i - head.len()]);
            }
        }
    } else {
        assert(rows * cols == 0) by (nonlinear_arith)
            requires
                rows == 0,
        ;
    }
}

/// A keyframe holds one tile for each cell of the screen, and each carries
/// the keyframe flag. The first frame of a fresh encoder is a keyframe.
pub proof fn lemma_keyframe_tiles(e: EncoderView, frame: Seq<u8>, stride: int)
    requires
        keyframe_due(e),
    ensures
        due_tiles(e, frame, stride).len() == cells_across(e.width as int) * cells_across(
            e.height as int,
        ),
        forall|i: int|
            0 <= i < due_tiles(e, frame, stride).len() ==> (#[trigger] due_tiles(
                e,
                frame,
                stride,
            )[i]).flags == FLAG_KEYFRAME,
{
    let rows = cells_across(e.height as int);
    let cols = cells_across(e.width as int);
    lemma_keyframe_rows(e, frame, stride, rows);
    assert(rows * cols == cols * rows) by (nonlinear_arith);
}

/// Whether the byte at column `b` of row `y` differs between two frames of
/// `stride` bytes per row.
pub open spec fn byte_differs(frame: Seq<u8>, prev: Seq<u8>, stride: int, y: int, b: int) -> bool {
    frame[y * stride + b] != prev[y * stride + b]
}

/// Whether byte `b` of row `y` belongs to a pixel of cell `(cx, cy)`.
pub open spec fn in_cell(e: EncoderView, cx: int, cy: int, y: int, b: int) -> bool {
    &&& cy * 64 <= y < cy * 64 + cell_extent(e.height as int, cy)
    &&& cx * 256 <= b < cx * 256 + 4 * cell_extent(e.width as int, cx)
}

/// Whether `frame` is a whole frame for the encoder's screen: every row
/// holds four bytes for each pixel, and all rows are there.
pub open spec fn whole_frame(e: EncoderView, frame: Seq<u8>, stride: int) -> bool {
    &&& stride >= 4 * e.width
    &&& frame.len() >= stride * e.height
}

proof fn lemma_row_offset(stride: int, height: int, y: int, b: int)
    requires
        0 <= y < height,
        0 <= b <= stride,
    ensures
        0 <= y * stride + b <= height * stride,
        y * stride >= 0,
{
    assert(y * stride >= 0) by (nonlinear_arith)
        requires
            y >= 0,
            stride >= 0,
    ;
    assert(y * stride + stride <= height * stride) by (nonlinear_arith)
        requires
            y + 1 <= height,
            stride >= 0,
    ;
}

/// A cell none of whose bytes differ is not due outside a keyframe.
proof fn lemma_cell_unchanged(e: EncoderView, frame: Seq<u8>, stride: int, tx: int, ty: int)
    requires
        whole_frame(e, frame, stride),
        whole_frame(e, e.prev_frame, stride),
        0 <= tx < cells_across(e.width as int),
        0 <= ty < cells_across(e.height as int),
        forall|y: int, b: int|
            in_cell(e, tx, ty, y, b) ==> !#[trigger] byte_differs(frame, e.prev_frame, stride, y, b),
    ensures
        !cell_due(e, frame, stride, false, tx, ty),
{
    let tw = cell_extent(e.width as int, tx);
    let th = cell_extent(e.height as int, ty);
    let px = tx * 64;
    let py = ty * 64;
    lemma_cell_extent(e.width as int, tx);
    lemma_cell_extent(e.height as int, ty);
    assert forall|y: int| py <= y < py + th implies !#[trigger] row_differs(
        frame,
        stride,
        e.prev_frame,
        px,
        y,
        tw,
    ) by {
        lemma_row_offset(stride, e.height as int, y, px * 4 + tw * 4);
        let start = y * stride + px * 4;
        let left = frame.subrange(start, start + tw * 4);
        let right = e.prev_frame.subrange(start, start + tw * 4);
        assert forall|j: int| 0 <= j < tw * 4 implies left[j] == right[j] by {
            assert(in_cell(e, tx, ty, y, px * 4 + j));
            assert(!byte_differs(frame, e.prev_frame, stride, y, px * 4 + j));
            assert(start + j == y * stride + (px * 4 + j));
        }
        assert(left =~= right);
    }
}

/// A cell one of whose bytes differs is due.
proof fn lemma_cell_changed(e: EncoderView, frame: Seq<u8>, stride: int, tx: int, ty: int, y: int, b: int)
    requires
        whole_frame(e, frame, stride),
        whole_frame(e, e.prev_frame, stride),
        0 <= tx < cells_across(e.width as int),
        0 <= ty < cells_across(e.height as int),
        in_cell(e, tx, ty, y, b),
        byte_differs(frame, e.prev_frame, stride, y, b),
    ensures
        cell_due(e, frame, stride, false, tx, ty),
{
    let tw = cell_extent(e.width as int, tx);
    let th = cell_extent(e.height as int, ty);
    let px = tx * 64;
    let py = ty * 64;
    lemma_cell_extent(e.width as int, tx);
    lemma_cell_extent(e.height as int, ty);
    lemma_row_offset(stride, e.height as int, y, px * 4 + tw * 4);
    let start = y * stride + px * 4;
    let left = frame.subrange(start, start + tw * 4);
    let right = e.prev_frame.subrange(start, start + tw * 4);
    let j = b - px * 4;
    assert(left[j] == frame[start + j]);
    assert(right[j] == e.prev_frame[start + j]);
    assert(start + j == y * stride + b);
    assert(left != right);
    assert(row_differs(frame, stride, e.prev_frame, px, y, tw));
}

proof fn lemma_row_without_due(e: EncoderView, frame: Seq<u8>, stride: int, ty: int, cols: int)
    requires
        forall|tx: int| 0 <= tx < cols ==> !#[trigger] cell_due(e, frame, stride, false, tx, ty),
    ensures
        row_tiles(e, frame, stride, false, ty, cols) == Seq::<RawTile>::empty(),
    decreases cols,
{
    if cols > 0 {
        lemma_row_without_due(e, frame, stride, ty, cols - 1);
    }
}

proof fn lemma_row_with_one_due(e: EncoderView, frame: Seq<u8>, stride: int, ty: int, cx: int, cols: int)
    requires
        0 <= cx < cols,
        cell_due(e, frame, stride, false, cx, ty),
        forall|tx: int|
            0 <= tx < cols && tx != cx ==> !#[trigger] cell_due(e, frame, stride, false, tx, ty),
    ensures
        row_tiles(e, frame, stride, false, ty, cols) == seq![
            cell_tile(e, frame, stride, false, cx, ty),
        ],
    decreases cols,
{
    if cols == cx + 1 {
        lemma_row_without_due(e, frame, stride, ty, cx);
        assert(row_tiles(e, frame, stride, false, ty, cols) =~= seq![
            cell_tile(e, frame, stride, false, cx, ty),
        ]);
    } else {
        lemma_row_with_one_due(e, frame, stride, ty, cx, cols - 1);
    }
}

proof fn lemma_rows_without_due(e: EncoderView, frame: Seq<u8>, stride: int, rows: int)
    requires
        forall|tx: int, ty: int|
            0 <= tx < cells_across(e.width as int) && 0 <= ty < rows ==> !#[trigger] cell_due(
                e,
                frame,
                stride,
                false,
                tx,
                ty,
            ),
    ensures
        rows_tiles(e, frame, stride, false, rows) == Seq::<RawTile>::empty(),
    decreases rows,
{
    if rows > 0 {
        lemma_rows_without_due(e, frame, stride, rows - 1);
        lemma_row_without_due(e, frame, stride, rows - 1, cells_across(e.width as int));
        assert(Seq::<RawTile>::empty() + Seq::<RawTile>::empty() =~= Seq::<RawTile>::empty());
    }
}

proof fn lemma_rows_with_one_due(e: EncoderView, frame: Seq<u8>, stride: int, cx: int, cy: int, rows: int)
    requires
        0 <= cx < cells_across(e.width as int),
        0 <= cy < rows,
        cell_due(e, frame, stride, false, cx, cy),
        forall|tx: int, ty: int|
            0 <= tx < cells_across(e.width as int) && 0 <= ty < rows && !(tx == cx && ty == cy)
                ==> !#[trigger] cell_due(e, frame, stride, false, tx, ty),
    ensures
        rows_tiles(e, frame, stride, false, rows) == seq![
            cell_tile(e, frame, stride, false, cx, cy),
        ],
    decreases rows,
{
    let cols = cells_across(e.width as int);
    let one = seq![cell_tile(e, frame, stride, false, cx, cy)];
    if rows == cy + 1 {
        lemma_rows_without_due(e, frame, stride, cy);
        lemma_row_with_one_due(e, frame, stride, cy, cx, cols);
        assert(Seq::<RawTile>::empty() + one =~= one);
    } else {
        lemma_rows_with_one_due(e, frame, stride, cx, cy, rows - 1);
        lemma_row_without_due(e, frame, stride, rows - 1, cols);
        assert(one + Seq::<RawTile>::empty() =~= one);
    }
}

/// A frame that equals the previous one yields no tile, where no keyframe is
/// due and the frame is whole.
pub proof fn lemma_same_frame_no_tiles(e: EncoderView, frame: Seq<u8>, stride: int)
    requires
        !keyframe_due(e),
        frame == e.prev_frame,
        whole_frame(e, frame, stride),
    ensures
        due_tiles(e, frame, stride) == Seq::<RawTile>::empty(),
{
    let rows = cells_across(e.height as int);
    assert forall|tx: int, ty: int|
        0 <= tx < cells_across(e.width as int) && 0 <= ty < rows implies !#[trigger] cell_due(
        e,
        frame,
        stride,
        false,
        tx,
        ty,
    ) by {
        lemma_cell_unchanged(e, frame, stride, tx, ty);
    }
    lemma_rows_without_due(e, frame, stride, rows);
}

/// After a frame was encoded, the same frame again with the same stride
/// yields no tile, and leaves the encoder so that this holds once more.
pub proof fn lemma_repeated_frame_no_tiles(e: EncoderView, frame: Seq<u8>, stride: int)
    requires
        frame.len() > 0,
        whole_frame(e, frame, stride),
    ensures
        due_tiles(
            EncoderView { prev_frame: frame, force_keyframe: false, ..e },
            frame,
            stride,
        ) == Seq::<RawTile>::empty(),
{
    lemma_same_frame_no_tiles(
        EncoderView { prev_frame: frame, force_keyframe: false, ..e },
        frame,
        stride,
    );
}

/// A frame that differs from the previous one only inside one cell yields
/// exactly that cell's tile, with the cell's geometry and without the
/// keyframe flag, where no keyframe is due and both frames are whole. What
/// lies behind the pixels of a row does not count.
pub proof fn lemma_one_cell_changed(
    e: EncoderView,
    frame: Seq<u8>,
    stride: int,
    cx: int,
    cy: int,
    y: int,
    b: int,
)
    requires
        !keyframe_due(e),
        whole_frame(e, frame, stride),
        whole_frame(e, e.prev_frame, stride),
        0 <= cx < cells_across(e.width as int),
        0 <= cy < cells_across(e.height as int),
        in_cell(e, cx, cy, y, b),
        byte_differs(frame, e.prev_frame, stride, y, b),
        forall|y2: int, b2: int| #[trigger]
            byte_differs(frame, e.prev_frame, stride, y2, b2) && 0 <= y2 < e.height && 0 <= b2 < 4
                * e.width ==> in_cell(e, cx, cy, y2, b2),
    ensures
        due_tiles(e, frame, stride) == seq![cell_tile(e, frame, stride, false, cx, cy)],
        due_tiles(e, frame, stride)[0].x == cx * 64,
        due_tiles(e, frame, stride)[0].y == cy * 64,
        due_tiles(e, frame, stride)[0].w == cell_extent(e.width as int, cx),
        due_tiles(e, frame, stride)[0].h == cell_extent(e.height as int, cy),
        due_tiles(e, frame, stride)[0].flags == 0,
{
    let rows = cells_across(e.height as int);
    let cols = cells_across(e.width as int);
    lemma_cell_changed(e, frame, stride, cx, cy, y, b);
    lemma_cell_extent(e.width as int, cx);
    lemma_cell_extent(e.height as int, cy);
    assert forall|tx: int, ty: int|
        0 <= tx < cols && 0 <= ty < rows && !(tx == cx && ty == cy) implies !#[trigger] cell_due(
        e,
        frame,
        stride,
        false,
        tx,
        ty,
    ) by {
        lemma_cell_extent(e.width as int, tx);
        lemma_cell_extent(e.height as int, ty);
        assert forall|y2: int, b2: int| in_cell(e, tx, ty, y2, b2) implies !#[trigger] byte_differs(
            frame,
            e.prev_frame,
            stride,
            y2,
            b2,
        ) by {
            if byte_differs(frame, e.prev_frame, stride, y2, b2) {
                assert(in_cell(e, cx, cy, y2, b2));
            }
        }
        lemma_cell_unchanged(e, frame, stride, tx, ty);
    }
    lemma_rows_with_one_due(e, frame, stride, cx, cy, rows);
}

/// Tile-based screen differ and encoder.
pub struct TileEncoder {
    width: u32,
    height: u32,
    /// Number of tiles in X direction
    tiles_x: u32,
    /// Number of tiles in Y direction
    tiles_y: u32,
    /// Previous frame data for diffing (BGRA)
    prev_frame: Vec<u8>,
    /// JPEG quality (1-100)
    quality: u8,
    /// Whether the next frame should be a keyframe (all tiles sent)
    force_keyframe: bool,
}

impl View for TileEncoder {
    type V = EncoderView;

    closed spec fn view(&self) -> EncoderView {
        EncoderView {
            width: self.width as nat,
            height: self.height as nat,
            quality: self.quality,
            prev_frame: self.prev_frame@,
            force_keyframe: self.force_keyframe,
        }
    }
}

fn cells_for(extent: u32) -> (n: u32)
    ensures
        n as int == cells_across(extent as int),
        n <= 67108864,
{
    let whole: u32 = extent / 64;
    if extent % 64 != 0 {
        whole + 1
    } else {
        whole
    }
}

impl TileEncoder {
    /// The invariant of the encoder: the tile counts cover the screen, and the
    /// quality is one that the encoder accepts.
    pub closed spec fn wf(&self) -> bool {
        &&& self.width <= MAX_SCREEN_EXTENT
        &&& self.height <= MAX_SCREEN_EXTENT
        &&& self.tiles_x as int == cells_across(self.width as int)
        &&& self.tiles_y as int == cells_across(self.height as int)
        &&& 1 <= self.quality <= 100
    }

    /// The screen of an encoder is one that its tiles can state.
    pub proof fn lemma_screen_bounded(&self)
        requires
            self.wf(),
        ensures
            self@.width <= MAX_SCREEN_EXTENT,
            self@.height <= MAX_SCREEN_EXTENT,
    {
    }

    /// An encoder for a screen of `width` by `height` pixels, of which it
    /// takes what a tile's fields can state. Its first frame will be a
    /// keyframe.
    pub fn new(width: u32, height: u32, quality: u8) -> (e: Self)
        ensures
            e.wf(),
            e@ == (EncoderView {
                width: screen_extent(width),
                height: screen_extent(height),
                quality: clamp_quality(quality),
                prev_frame: Seq::empty(),
                force_keyframe: true,
            }),
    {
        let width: u32 = if width > MAX_SCREEN_EXTENT {
            MAX_SCREEN_EXTENT
        } else {
            width
        };
        let height: u32 = if height > MAX_SCREEN_EXTENT {
            MAX_SCREEN_EXTENT
        } else {
            height
        };
        let tiles_x = cells_for(width);
        let tiles_y = cells_for(height);
        let quality: u8 = if quality < 1 {
            1
        } else if quality > 100 {
            100
        } else {
            quality
        };
        Self {
            width,
            height,
            tiles_x,
            tiles_y,
            prev_frame: Vec::new(),
            quality,
            force_keyframe: true,
        }
    }

    /// Sets the quality, clamped to `[1, 100]`.
    pub fn set_quality(&mut self, quality: u8)
        requires
            old(self).wf(),
        ensures
            final(self).wf(),
            final(self)@ == (EncoderView { quality: clamp_quality(quality), ..old(self)@ }),
    {
        self.quality = if quality < 1 {
            1
        } else if quality > 100 {
            100
        } else {
            quality
        };
    }

    /// Makes the next encoded frame a keyframe.
    pub fn request_keyframe(&mut self)
        requires
            old(self).wf(),
        ensures
            final(self).wf(),
            final(self)@ == (EncoderView { force_keyframe: true, ..old(self)@ }),
    {
        self.force_keyframe = true;
    }

    /// The quality in use.
    pub fn quality(&self) -> (q: u8)
        ensures
            q == self@.quality,
    {
        self.quality
    }

    /// The number of cells of the screen: columns and rows.
    pub fn tile_counts(&self) -> (n: (u32, u32))
        requires
            self.wf(),
        ensures
            n.0 as int == cells_across(self@.width as int),
            n.1 as int == cells_across(self@.height as int),
    {
        (self.tiles_x, self.tiles_y)
    }

    /// Encodes the tiles of a BGRA frame that are due: all of them in a
    /// keyframe, else those that differ from the same region of the previous
    /// frame, which is taken to have the same stride. Each tile's
    /// RGB bytes go through `compress`, which does the image encoding. On
    /// success the frame becomes the previous frame. Where `compress` fails
    /// for a tile, that error comes back at once and the previous frame stays.
    pub fn encode_frame<E, F: Fn(Vec<u8>, u32, u32, u8) -> Result<Vec<u8>, E>>(
        &mut self,
        frame_data: &[u8],
        stride: u32,
        compress: F,
    ) -> (r: Result<Vec<TileData>, E>)
        requires
            old(self).wf(),
            accepts_tiles(compress),
        ensures
            final(self).wf(),
            r matches Ok(tiles) ==> tiles_encode(
                compress,
                tiles@,
                due_tiles(old(self)@, frame_data@, stride as int),
                old(self)@.quality,
            ),
            r is Ok ==> final(self)@ == (EncoderView {
                prev_frame: frame_data@,
                force_keyframe: false,
                ..old(self)@
            }),
            r matches Err(err) ==> compress_fails(
                compress,
                due_tiles(old(self)@, frame_data@, stride as int),
                old(self)@.quality,
                err,
            ),
            r is Err ==> final(self)@ == (EncoderView { force_keyframe: false, ..old(self)@ }),
    {
        let is_keyframe = self.force_keyframe || self.prev_frame.is_empty();
        if is_keyframe {
            self.force_keyframe = false;
        }
        let ghost e = old(self)@;
        let ghost frame = frame_data@;
        let ghost all = due_tiles(e, frame, stride as int);
        let flags: u8 = if is_keyframe {
            FLAG_KEYFRAME
        } else {
            0
        };
        let mut tiles: Vec<TileData> = Vec::new();
        let mut ty: u32 = 0;
        while ty < self.tiles_y
            invariant
                self.wf(),
                accepts_tiles(compress),
                e == old(self)@,
                ty <= self.tiles_y,
                self@ == (EncoderView { force_keyframe: false, ..e }),
                is_keyframe == keyframe_due(e),
                flags == tile_flags(is_keyframe),
                frame == frame_data@,
                all == due_tiles(e, frame, stride as int),
                tiles_encode(
                    compress,
                    tiles@,
                    rows_tiles(e, frame, stride as int, is_keyframe, ty as int),
                    e.quality,
                ),
            decreases self.tiles_y - ty,
        {
            let ghost done = rows_tiles(e, frame, stride as int, is_keyframe, ty as int);
            let mut tx: u32 = 0;
            while tx < self.tiles_x
                invariant
                    self.wf(),
                    accepts_tiles(compress),
                    e == old(self)@,
                    ty < self.tiles_y,
                    tx <= self.tiles_x,
                    self@ == (EncoderView { force_keyframe: false, ..e }),
                    is_keyframe == keyframe_due(e),
                    flags == tile_flags(is_keyframe),
                    frame == frame_data@,
                    all == due_tiles(e, frame, stride as int),
                    done == rows_tiles(e, frame, stride as int, is_keyframe, ty as int),
                    tiles_encode(
                        compress,
                        tiles@,
                        done + row_tiles(e, frame, stride as int, is_keyframe, ty as int, tx as int),
                        e.quality,
                    ),
                decreases self.tiles_x - tx,
            {
                proof {
                    lemma_cell_extent(self.width as int, tx as int);
                    lemma_cell_extent(self.height as int, ty as int);
                }
                let pixel_x: u32 = tx * TILE_SIZE;
                let pixel_y: u32 = ty * TILE_SIZE;
                let tile_w: u32 = if self.width - pixel_x < TILE_SIZE {
                    self.width - pixel_x
                } else {
                    TILE_SIZE
                };
                let tile_h: u32 = if self.height - pixel_y < TILE_SIZE {
                    self.height - pixel_y
                } else {
                    TILE_SIZE
                };
                let ghost before = row_tiles(
                    e,
                    frame,
                    stride as int,
                    is_keyframe,
                    ty as int,
                    tx as int,
                );
                let ghost raw = cell_tile(e, frame, stride as int, is_keyframe, tx as int, ty as int);
                let due = is_keyframe || self.tile_changed(
                    frame_data,
                    stride,
                    pixel_x,
                    pixel_y,
                    tile_w,
                    tile_h,
                );
                assert(due == cell_due(e, frame, stride as int, is_keyframe, tx as int, ty as int));
                if due {
                    let rgb = self.extract_tile_rgb(
                        frame_data,
                        stride,
                        pixel_x,
                        pixel_y,
                        tile_w,
                        tile_h,
                    );
                    let ghost rgb_in = rgb;
                    assert(rgb_in@ == raw.rgb);
                    assert(rgb@.len() == 3 * tile_w * tile_h) by (nonlinear_arith)
                        requires
                            rgb@.len() == 3 * (tile_w as int) * (tile_h as int),
                    ;
                    match compress(rgb, tile_w, tile_h, self.quality) {
                        Ok(data) => {
                            let tile = TileData {
                                x: (pixel_x % 65536) as u16,
                                y: (pixel_y % 65536) as u16,
                                w: tile_w as u16,
                                h: tile_h as u16,
                                data,
                                flags,
                            };
                            proof {
                                assert(call_ensures(
                                    compress,
                                    (rgb_in, raw.w as u32, raw.h as u32, e.quality),
                                    Ok::<Vec<u8>, E>(tile.data),
                                ));
                                assert(tile_encodes(compress, tile, raw, e.quality));
                                let old_tiles = tiles@;
                                let new_raw = (done + before).push(raw);
                                assert(done + before.push(raw) =~= new_raw);
                                assert forall|i: int| 0 <= i < old_tiles.push(tile).len() implies tile_encodes(
                                    compress,
                                    #[trigger] old_tiles.push(tile)[i],
                                    new_raw[i],
                                    e.quality,
                                ) by {
                                    if i < old_tiles.len() {
                                        assert(old_tiles.push(tile)[i] == old_tiles[i]);
                                        assert(new_raw[i] == (done + before)[i]);
                                    }
                                }
                            }
                            tiles.push(tile);
                        },
                        Err(err) => {
                            proof {
                                lemma_rows_tiles_prefix(
                                    e,
                                    frame,
                                    stride as int,
                                    is_keyframe,
                                    ty as int,
                                    tx as int,
                                    cells_across(e.height as int),
                                );
                                lemma_rows_tiles_grow(
                                    e,
                                    frame,
                                    stride as int,
                                    is_keyframe,
                                    ty as int,
                                    tx as int,
                                    cells_across(e.height as int),
                                );
                                let at = (done + before).len() as int;
                                assert(all[at] == raw);
                                assert(call_ensures(
                                    compress,
                                    (rgb_in, all[at].w as u32, all[at].h as u32, e.quality),
                                    Err::<Vec<u8>, E>(err),
                                ));
                                assert forall|j: int| 0 <= j < at implies compress_takes_tile(
                                    compress,
                                    #[trigger] all[j],
                                    e.quality,
                                ) by {
                                    assert(all[j] == (done + before)[j]);
                                    assert(tile_encodes(compress, tiles@[j], all[j], e.quality));
                                }
                                assert(compress_takes(compress, all, e.quality, at));
                            }
                            return Err(err);
                        },
                    }
                }
                tx += 1;
            }
            ty += 1;
        }
        self.prev_frame = vstd::slice::slice_to_vec(frame_data);
        Ok(tiles)
    }

    /// Whether row `y` of a tile at pixel column `px`, `tw` pixels wide, differs
    /// between `frame_data` and the previous frame, or lies outside either.
    fn row_changed(&self, frame_data: &[u8], stride: u32, px: u32, y: u64, tw: u32) -> (changed:
        bool)
        requires
            y <= 0x1_FFFF_FFFE,
        ensures
            changed == row_differs(
                frame_data@,
                stride as int,
                self@.prev_frame,
                px as int,
                y as int,
                tw as int,
            ),
    {
        let span: u128 = tw as u128 * 4;
        assert(y as u128 * (stride as u128) <= 0x1_FFFF_FFFE * 0xFFFF_FFFF) by (nonlinear_arith)
            requires
                y as u128 <= 0x1_FFFF_FFFE,
                stride as u128 <= 0xFFFF_FFFF,
        ;
        let start: u128 = y as u128 * (stride as u128) + px as u128 * 4;
        if start + span > frame_data.len() as u128 || start + span > self.prev_frame.len() as u128 {
            return true;
        }
        let a: usize = start as usize;
        let n: usize = span as usize;
        let ghost left = frame_data@.subrange(a as int, a + n);
        let ghost right = self.prev_frame@.subrange(a as int, a + n);
        let ghost differs = row_differs(
            frame_data@,
            stride as int,
            self@.prev_frame,
            px as int,
            y as int,
            tw as int,
        );
        assert(differs == (left != right));
        let mut i: usize = 0;
        while i < n
            invariant
                i <= n,
                a + n <= usize::MAX,
                a + n <= frame_data@.len(),
                a + n <= self.prev_frame@.len(),
                differs == (left != right),
                differs == row_differs(
                    frame_data@,
                    stride as int,
                    self@.prev_frame,
                    px as int,
                    y as int,
                    tw as int,
                ),
                left == frame_data@.subrange(a as int, a + n),
                right == self.prev_frame@.subrange(a as int, a + n),
                forall|j: int| 0 <= j < i ==> left[j] == right[j],
            decreases n - i,
        {
            if frame_data[a + i] != self.prev_frame[a + i] {
                proof {
                    assert(left[i as int] != right[i as int]);
                }
                return true;
            }
            i += 1;
        }
        proof {
            assert(left =~= right);
        }
        false
    }

    /// Whether the tile at pixel `(px, py)` of size `tw` by `th` differs
    /// between `frame_data` and the previous frame, or lies outside either.
    pub fn tile_changed(&self, frame_data: &[u8], stride: u32, px: u32, py: u32, tw: u32, th: u32) -> (changed:
        bool)
        ensures
            changed == tile_differs(
                frame_data@,
                stride as int,
                self@.prev_frame,
                px as int,
                py as int,
                tw as int,
                th as int,
            ),
    {
        let mut row: u32 = 0;
        while row < th
            invariant
                row <= th,
                forall|y: int|
                    py <= y < py + row ==> !#[trigger] row_differs(
                        frame_data@,
                        stride as int,
                        self@.prev_frame,
                        px as int,
                        y,
                        tw as int,
                    ),
            decreases th - row,
        {
            if self.row_changed(frame_data, stride, px, py as u64 + row as u64, tw) {
                return true;
            }
            row += 1;
        }
        false
    }

    /// The RGB bytes of the tile at pixel `(px, py)` of size `tw` by `th`,
    /// taken from the BGRA frame.
    pub fn extract_tile_rgb(&self, frame_data: &[u8], stride: u32, px: u32, py: u32, tw: u32, th: u32) -> (rgb:
        Vec<u8>)
        ensures
            rgb@ == tile_rgb(
                frame_data@,
                stride as int,
                px as int,
                py as int,
                tw as int,
                th as int,
            ),
            rgb@.len() == 3 * tw * th,
    {
        let mut rgb: Vec<u8> = Vec::new();
        let mut row: u32 = 0;
        while row < th
            invariant
                row <= th,
                rgb@ == tile_rgb(
                    frame_data@,
                    stride as int,
                    px as int,
                    py as int,
                    tw as int,
                    row as int,
                ),
            decreases th - row,
        {
            let y: u128 = py as u128 + row as u128;
            assert(y * (stride as u128) <= 0x1_FFFF_FFFE * 0xFFFF_FFFF) by (nonlinear_arith)
                requires
                    y <= 0x1_FFFF_FFFE,
                    stride as u128 <= 0xFFFF_FFFF,
            ;
            let row_start: u128 = y * (stride as u128) + px as u128 * 4;
            let ghost done = rgb@;
            let mut col: u32 = 0;
            while col < tw
                invariant
                    col <= tw,
                    row_start <= 0x1_FFFF_FFFE * 0xFFFF_FFFF + 0x3_FFFF_FFFC,
                    rgb@ == done + row_rgb(frame_data@, row_start as int, col as int),
                decreases tw - col,
            {
                let offset: u128 = row_start + col as u128 * 4;
                let ghost before = rgb@;
                if offset + 2 < frame_data.len() as u128 {
                    let at: usize = offset as usize;
                    rgb.push(frame_data[at + 2]);
                    rgb.push(frame_data[at + 1]);
                    rgb.push(frame_data[at]);
                } else {
                    rgb.push(0);
                    rgb.push(0);
                    rgb.push(0);
                }
                proof {
                    let head = row_rgb(frame_data@, row_start as int, col as int);
                    let px3 = pixel_rgb(frame_data@, offset as int);
                    assert(rgb@ =~= before + px3);
                    assert((done + head) + px3 =~= done + (head + px3));
                }
                col += 1;
            }
            row += 1;
        }
        proof {
            lemma_tile_rgb_len(
                frame_data@,
                stride as int,
                px as int,
                py as int,
                tw as int,
                th as int,
            );
        }
        rgb
    }
}

} // verus!
