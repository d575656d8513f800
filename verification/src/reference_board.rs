//! The board on which several reference images are uploaded as one picture.
use crate::text::{concat2, opt_view, owned};
use vstd::prelude::*;

verus! {

/// The edge of a tile of the reference board, in pixels.
pub const REFERENCE_TILE_EDGE: u32 = 512;

/// The space around the tiles of the reference board, in pixels.
pub const REFERENCE_TILE_GUTTER: u32 = 8;

/// The layout of a reference board.
#[derive(Debug, Clone, Copy, PartialEq, Eq, Structural)]
pub struct BoardLayout {
    pub columns: u32,
    pub rows: u32,
    pub width: u32,
    pub height: u32,
}

/// How many columns a board of a number of tiles has.
pub open spec fn board_columns(count: int) -> int {
    if 2 <= count <= 4 {
        2
    } else {
        3
    }
}

/// How long a board of a number of tiles is in one direction.
pub open spec fn board_edge(tiles: int) -> int {
    tiles * REFERENCE_TILE_EDGE + (tiles + 1) * REFERENCE_TILE_GUTTER
}

/// How many rows a board of a number of tiles has.
pub open spec fn board_rows(count: int) -> int {
    (count + board_columns(count) - 1) / board_columns(count)
}

/// Whether the height of a board of a number of tiles can be told.
pub open spec fn board_fits(count: int) -> bool {
    board_edge(board_rows(count)) <= u32::MAX
}

/// The largest number of reference images of a request.
pub const MAX_REFERENCE_IMAGES: usize = 8;

/// The references of a request always fit on a board.
pub proof fn accepted_references_fit(count: int)
    requires
        0 <= count <= MAX_REFERENCE_IMAGES,
    ensures
        board_fits(count),
{
}

/// Lays out a board for a number of reference images.
pub fn board_layout(count: u32) -> (r: BoardLayout)
    requires
        2 <= count,
        board_fits(count as int),
    ensures
        r.columns == board_columns(count as int),
        r.rows == board_rows(count as int),
        r.width == board_edge(r.columns as int),
        r.height == board_edge(r.rows as int),
        count <= r.columns * r.rows,
{
    let columns: u32 = if count <= 4 {
        2
    } else {
        3
    };
    assert(board_rows(count as int) <= 8_259_552);
    let rows: u32 = (count + columns - 1) / columns;
    proof {
        assert(count <= columns * rows) by (nonlinear_arith)
            requires
                columns == 2 || columns == 3,
                rows == (count + columns - 1) / (columns as int),
                count >= 2,
        ;
    }
    BoardLayout {
        columns,
        rows,
        width: columns * REFERENCE_TILE_EDGE + (columns + 1) * REFERENCE_TILE_GUTTER,
        height: rows * REFERENCE_TILE_EDGE + (rows + 1) * REFERENCE_TILE_GUTTER,
    }
}

/// Where the tile of an index begins in one direction, for its column or row.
pub open spec fn tile_start(at: int) -> int {
    REFERENCE_TILE_GUTTER + at * (REFERENCE_TILE_EDGE + REFERENCE_TILE_GUTTER)
}

/// Places a picture in the middle of its tile.
pub fn tile_position(index: u32, columns: u32, width: u32, height: u32) -> (r: (u32, u32))
    requires
        columns == 2 || columns == 3,
        tile_start(index as int / columns as int) + REFERENCE_TILE_EDGE <= u32::MAX,
        width <= REFERENCE_TILE_EDGE,
        height <= REFERENCE_TILE_EDGE,
    ensures
        r.0 == tile_start(index as int % columns as int) + (REFERENCE_TILE_EDGE - width) / 2,
        r.1 == tile_start(index as int / columns as int) + (REFERENCE_TILE_EDGE - height) / 2,
{
    let column: u32 = index % columns;
    let row: u32 = index / columns;
    let step: u32 = REFERENCE_TILE_EDGE + REFERENCE_TILE_GUTTER;
    proof {
        if columns == 2 {
            assert(index % 2 < 2);
        } else {
            assert(index % 3 < 3);
        }
        assert(column * step <= 1560) by (nonlinear_arith)
            requires
                column < 3,
                step == 520,
        ;
        assert(0 <= row * step) by (nonlinear_arith);
    }
    let origin_x: u32 = REFERENCE_TILE_GUTTER + column * step;
    let origin_y: u32 = REFERENCE_TILE_GUTTER + row * step;
    (
        origin_x + (REFERENCE_TILE_EDGE - width) / 2,
        origin_y + (REFERENCE_TILE_EDGE - height) / 2,
    )
}

/// Every tile lies on its board, and tiles of different columns or rows do not touch.
pub proof fn tiles_fit_the_board(at: int, tiles: int)
    requires
        0 <= at < tiles,
    ensures
        tile_start(at) + REFERENCE_TILE_EDGE + REFERENCE_TILE_GUTTER <= board_edge(tiles),
        tile_start(at) + REFERENCE_TILE_EDGE < tile_start(at + 1),
{
    assert(at * 520 + 520 <= tiles * 520) by (nonlinear_arith)
        requires
            at < tiles,
    ;
}

// ---------------------------------------------------------------------------
// Pixels
// ---------------------------------------------------------------------------

/// A picture of four bytes for each pixel: red, green, blue and opacity.
#[derive(Debug)]
pub struct Pixels {
    pub width: u32,
    pub height: u32,
    pub rgba: Vec<u8>,
}

/// What a picture shows.
pub struct PixelsView {
    pub width: int,
    pub height: int,
    pub rgba: Seq<u8>,
}

impl View for Pixels {
    type V = PixelsView;

    open spec fn view(&self) -> PixelsView {
        PixelsView { width: self.width as int, height: self.height as int, rgba: self.rgba@ }
    }
}

/// Whether a picture has exactly the bytes of its pixels.
pub open spec fn is_complete(p: PixelsView) -> bool {
    p.rgba.len() == p.width * p.height * 4
}

/// The picture that a file holds, scaled to fit a square; nothing where it holds none.
pub uninterp spec fn thumbnail_of(bytes: Seq<u8>, edge: u32) -> Option<PixelsView>;

/// A picture laid over another with its corner at a place.
pub uninterp spec fn overlaid(board: PixelsView, tile: PixelsView, x: u32, y: u32) -> PixelsView;

/// The PNG file of a picture.
pub uninterp spec fn png_file(p: PixelsView) -> Option<Seq<u8>>;

/// Calls `image::load_from_memory` and `DynamicImage::thumbnail`: the picture depends on the
/// bytes and the edge alone, and fits the square.
#[verifier::external_body]
fn thumbnail(bytes: &Vec<u8>, edge: u32) -> (r: Option<Pixels>)
    requires
        edge > 0,
    ensures
        opt_view(r) == thumbnail_of(bytes@, edge),
        r matches Some(p) ==> p.width <= edge && p.height <= edge && is_complete(p@),
{
    let tile = image::load_from_memory(bytes).ok()?.thumbnail(edge, edge).to_rgba8();
    Some(Pixels { width: tile.width(), height: tile.height(), rgba: tile.into_raw() })
}

/// Calls `imageops::overlay`, which changes pixels of the board and keeps its size: the result
/// depends on the two pictures and the place alone.
#[verifier::external_body]
fn overlay(board: Pixels, tile: &Pixels, x: u32, y: u32) -> (r: Pixels)
    requires
        is_complete(board@),
        is_complete(tile@),
    ensures
        r@ == overlaid(board@, tile@, x, y),
        r.width == board.width,
        r.height == board.height,
        is_complete(r@),
{
    let mut b = image::RgbaImage::from_raw(board.width, board.height, board.rgba).unwrap_or_default();
    let t = image::RgbaImage::from_raw(tile.width, tile.height, tile.rgba.clone());
    image::imageops::overlay(&mut b, &t.unwrap_or_default(), i64::from(x), i64::from(y));
    Pixels { width: b.width(), height: b.height(), rgba: b.into_raw() }
}

/// Calls `DynamicImage::write_to` for PNG: the file depends on the picture alone.
#[verifier::external_body]
fn write_png(p: Pixels) -> (r: Option<Vec<u8>>)
    requires
        is_complete(p@),
    ensures
        opt_view(r) == png_file(p@),
{
    let mut out = std::io::Cursor::new(Vec::new());
    let board = image::DynamicImage::ImageRgba8(
        image::RgbaImage::from_raw(p.width, p.height, p.rgba)?,
    );
    board.write_to(&mut out, image::ImageFormat::Png).ok()?;
    Some(out.into_inner())
}

// ---------------------------------------------------------------------------
// Composition
// ---------------------------------------------------------------------------

/// A byte of the empty board: light grey, opaque.
pub open spec fn blank_byte(i: int) -> u8 {
    if i % 4 == 3 {
        255
    } else {
        242
    }
}

/// The empty board for a number of tiles.
pub open spec fn blank_board(count: int) -> PixelsView {
    let columns = board_columns(count);
    let width = board_edge(columns);
    let height = board_edge(board_rows(count));
    PixelsView {
        width,
        height,
        rgba: Seq::new((width * height * 4) as nat, |i: int| blank_byte(i)),
    }
}

/// Where the picture of an index lies on the board.
pub open spec fn placed_at(index: int, columns: int, size: int, across: bool) -> int {
    tile_start(
        if across {
            index % columns
        } else {
            index / columns
        },
    ) + (REFERENCE_TILE_EDGE - size) / 2
}

/// The board with the first `k` pictures laid on it; nothing where one of them is none.
pub open spec fn board_with(sources: Seq<Vec<u8>>, k: int) -> Option<PixelsView>
    decreases k,
{
    if k <= 0 {
        Some(blank_board(sources.len() as int))
    } else {
        let columns = board_columns(sources.len() as int);
        match (board_with(sources, k - 1), thumbnail_of(sources[k - 1]@, REFERENCE_TILE_EDGE)) {
            (Some(board), Some(tile)) => Some(
                overlaid(
                    board,
                    tile,
                    placed_at(k - 1, columns, tile.width, true) as u32,
                    placed_at(k - 1, columns, tile.height, false) as u32,
                ),
            ),
            _ => None,
        }
    }
}

proof fn lemma_board_with_stops(sources: Seq<Vec<u8>>, k: int, n: int)
    requires
        0 <= k <= n,
        board_with(sources, k) is None,
    ensures
        board_with(sources, n) is None,
    decreases n - k,
{
    if k < n {
        lemma_board_with_stops(sources, k, n - 1);
    }
}

fn make_blank(layout: BoardLayout) -> (r: Pixels)
    requires
        layout.width <= 2000,
    ensures
        r.width == layout.width,
        r.height == layout.height,
        r.rgba@ == Seq::new(
            (layout.width * layout.height * 4) as nat,
            |i: int| blank_byte(i),
        ),
        is_complete(r@),
{
    proof {
        assert(layout.width * layout.height <= 2000 * u32::MAX) by (nonlinear_arith)
            requires
                layout.width <= 2000,
                layout.height <= u32::MAX,
        ;
    }
    let total: u64 = layout.width as u64 * layout.height as u64 * 4;
    let mut rgba: Vec<u8> = Vec::new();
    let mut i: u64 = 0;
    while i < total
        invariant
            i <= total,
            total <= 8000 * u32::MAX,
            rgba.len() == i,
            forall|j: int| 0 <= j < i ==> #[trigger] rgba@[j] == blank_byte(j),
        decreases total - i,
    {
        rgba.push(
            if i % 4 == 3 {
                255
            } else {
                242
            },
        );
        i += 1;
    }
    assert(rgba@ =~= Seq::new(
        (layout.width * layout.height * 4) as nat,
        |i: int| blank_byte(i),
    ));
    Pixels { width: layout.width, height: layout.height, rgba }
}

/// Every tile lies on its board.
proof fn lemma_tile_fits(index: int, count: int)
    requires
        0 <= index < count,
    ensures
        tile_start(index / board_columns(count)) + REFERENCE_TILE_EDGE <= board_edge(
            board_rows(count),
        ),
{
    let columns = board_columns(count);
    let row = index / columns;
    let rows = board_rows(count);
    assert(row < rows) by (nonlinear_arith)
        requires
            columns == 2 || columns == 3,
            row == index / columns,
            rows == (count + columns - 1) / columns,
            0 <= index < count,
    ;
}

/// Lays reference images on a board and writes it as PNG.
pub fn compose_board(sources: &Vec<Vec<u8>>) -> (r: Result<Vec<u8>, String>)
    requires
        2 <= sources.len(),
        board_fits(sources.len() as int),
    ensures
        match board_with(sources@, sources.len() as int) {
            None => r matches Err(e) && e@ == "参考图格式不受支持或文件已损坏"@,
            Some(board) => match png_file(board) {
                None => r matches Err(e) && e@ == "合成参考图板失败"@,
                Some(bytes) => r matches Ok(out) && out@ == bytes,
            },
        },
{
    assert(sources.len() <= u32::MAX);
    let layout = board_layout(sources.len() as u32);
    let mut board = make_blank(layout);
    let mut k: usize = 0;
    while k < sources.len()
        invariant
            k <= sources.len(),
            2 <= sources.len() <= u32::MAX,
            board_fits(sources.len() as int),
            layout.columns == board_columns(sources.len() as int),
            is_complete(board@),
            board_with(sources@, k as int) == Some(board@),
        decreases sources.len() - k,
    {
        match thumbnail(&sources[k], REFERENCE_TILE_EDGE) {
            Some(tile) => {
                proof {
                    lemma_tile_fits(k as int, sources.len() as int);
                }
                let (x, y) = tile_position(k as u32, layout.columns, tile.width, tile.height);
                board = overlay(board, &tile, x, y);
            },
            None => {
                proof {
                    lemma_board_with_stops(sources@, k + 1, sources.len() as int);
                }
                return Err(owned("参考图格式不受支持或文件已损坏"));
            },
        }
        k += 1;
    }
    match write_png(board) {
        Some(bytes) => Ok(bytes),
        None => Err(owned("合成参考图板失败")),
    }
}

/// What is uploaded for the references of a request.
#[derive(Debug)]
pub struct ReferenceUpload {
    pub bytes: Vec<u8>,
    pub kind: String,
    pub file_name: String,
}

/// Prepares the upload of the references of a request: a single one as it is, several on one
/// board. `kind` is the format of the first.
pub fn prepare_reference_upload(sources: &Vec<Vec<u8>>, kind: &str) -> (r: Result<
    ReferenceUpload,
    String,
>)
    requires
        sources.len() >= 2 ==> board_fits(sources.len() as int),
    ensures
        if sources.len() == 0 {
            r matches Err(e) && e@ == "缺少参考图"@
        } else if sources.len() == 1 {
            r matches Ok(u) && u.bytes@ == sources@[0]@ && u.kind@ == kind@ && u.file_name@
                == "ref."@ + kind@
        } else {
            match board_with(sources@, sources.len() as int) {
                None => r matches Err(e) && e@ == "参考图格式不受支持或文件已损坏"@,
                Some(board) => match png_file(board) {
                    None => r matches Err(e) && e@ == "合成参考图板失败"@,
                    Some(bytes) => r matches Ok(u) && u.bytes@ == bytes && u.kind@ == "png"@
                        && u.file_name@ == "reference-board.png"@,
                },
            }
        },
{
    if sources.len() == 0 {
        return Err(owned("缺少参考图"));
    }
    if sources.len() == 1 {
        let bytes = sources[0].clone();
        assert(bytes@ =~= sources@[0]@);
        return Ok(
            ReferenceUpload { bytes, kind: owned(kind), file_name: concat2("ref.", kind) },
        );
    }
    match compose_board(sources) {
        Ok(bytes) => Ok(
            ReferenceUpload {
                bytes,
                kind: owned("png"),
                file_name: owned("reference-board.png"),
            },
        ),
        Err(e) => Err(e),
    }
}

} // verus!
