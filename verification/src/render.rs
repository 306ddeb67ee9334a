use crate::assets::{spec_sprite_lookup, AssetStore};
use crate::errors::RenderError;
use crate::grid::{spec_grid_of_fen, BoardGrid};
use crate::moves::Move;
use crate::piece::Piece;
use crate::ril_api::{
    image_height, image_pixels, image_width, img_decode_png, img_draw_text, img_encode_png,
    img_new, img_paste, img_set_pixel, img_width_of, img_height_of, png_decodable, png_height,
    png_pixels, png_width, Canvas,
};
use crate::square::{spec_cell_label, spec_sq_label, Player, SquareColor};
use vstd::prelude::*;

verus! {

pub const SQUARE_WIDTH: u32 = 80;
pub const SQUARE_HEIGHT: u32 = 80;

pub const RANK_RIGHT_PADDING: u32 = 30;
pub const FILE_TOP_PADDING: u32 = 30;

pub const FILE_EDGE_PADDING: u32 = 30;
pub const RANK_EDGE_PADDING: u32 = 5;

pub const IMAGE_WIDTH: u32 = SQUARE_WIDTH * 8 + RANK_RIGHT_PADDING;
pub const IMAGE_HEIGHT: u32 = SQUARE_HEIGHT * 8 + FILE_TOP_PADDING;

pub const PIECE_WIDTH: u32 = 60;
pub const PIECE_HEIGHT: u32 = 60;

/// The fixed geometry is internally consistent: sprite bounds fit inside a
/// square, the board area fits inside the image, the rank labels sit left of
/// the board and the file labels sit below it.
pub proof fn lemma_geometry_consistent()
    ensures
        PIECE_WIDTH <= SQUARE_WIDTH,
        PIECE_HEIGHT <= SQUARE_HEIGHT,
        RANK_RIGHT_PADDING + 8 * SQUARE_WIDTH <= IMAGE_WIDTH,
        8 * SQUARE_HEIGHT <= IMAGE_HEIGHT,
        RANK_EDGE_PADDING < RANK_RIGHT_PADDING,
        IMAGE_HEIGHT - FILE_EDGE_PADDING >= 8 * SQUARE_HEIGHT,
{
}

/// The fill class of grid cell (file, rank): dark or light by the checker
/// rule, overridden to the highlight color exactly when the last move's start
/// or target square has this cell's perspective-adjusted algebraic label.
pub open spec fn spec_square_color(
    file: u8,
    rank: u8,
    perspective: Player,
    last: Option<Move>,
) -> SquareColor {
    let base = if (rank % 2) != (file % 2) {
        SquareColor::Dark
    } else {
        SquareColor::Light
    };
    match last {
        Some(m) => {
            if spec_cell_label(file, rank, perspective) == spec_sq_label(
                m.start_square.spec_value(),
            ) || spec_cell_label(file, rank, perspective) == spec_sq_label(
                m.target_square.spec_value(),
            ) {
                SquareColor::Yellow
            } else {
                base
            }
        },
        None => base,
    }
}

/// Computes the fill class of grid cell (file, rank).
pub fn get_square_color(file: u8, rank: u8, perspective: Player, last: Option<Move>) -> (c:
    SquareColor)
    requires
        file < 8,
        rank < 8,
        last matches Some(m) ==> m.wf(),
    ensures
        c == spec_square_color(file, rank, perspective, last),
{
    let base = if (rank % 2) != (file % 2) {
        SquareColor::Dark
    } else {
        SquareColor::Light
    };
    match last {
        Some(m) => {
            let label = crate::square::cell_label(file, rank, perspective);
            let start_label = crate::square::sq_label(m.start_square);
            let target_label = crate::square::sq_label(m.target_square);
            if (label.0 == start_label.0 && label.1 == start_label.1) || (label.0 == target_label.0
                && label.1 == target_label.1) {
                SquareColor::Yellow
            } else {
                base
            }
        },
        None => base,
    }
}

/// Highlighting is exact: with a last move on record, a cell is drawn in the
/// highlight color if and only if its perspective-adjusted algebraic label is
/// the label of that move's start or target square; every other cell keeps
/// its checker shade, which is never the highlight color.
pub proof fn lemma_highlight_exact(file: u8, rank: u8, perspective: Player, m: Move)
    ensures
        spec_square_color(file, rank, perspective, Some(m)) == SquareColor::Yellow <==> (
        spec_cell_label(file, rank, perspective) == spec_sq_label(m.start_square.spec_value())
            || spec_cell_label(file, rank, perspective) == spec_sq_label(
            m.target_square.spec_value(),
        )),
{
}

/// The pixel color of each fill class.
pub open spec fn spec_square_rgba(c: SquareColor) -> (u8, u8, u8, u8) {
    match c {
        SquareColor::Dark => (118u8, 150u8, 82u8, 255u8),
        SquareColor::Light => (238u8, 238u8, 210u8, 255u8),
        SquareColor::Yellow => (255u8, 255u8, 0u8, 255u8),
    }
}

/// Computes the pixel color of a fill class.
pub fn square_rgba(c: SquareColor) -> (rgba: (u8, u8, u8, u8))
    ensures
        rgba == spec_square_rgba(c),
{
    match c {
        SquareColor::Dark => (118, 150, 82, 255),
        SquareColor::Light => (238, 238, 210, 255),
        SquareColor::Yellow => (255, 255, 0, 255),
    }
}

/// A usable sprite for a piece on a square of the given fill class: present
/// in the store, decodable as a PNG, and no larger than a board square.
pub open spec fn spec_sprite_good(
    sprites: Seq<crate::assets::SpriteAsset>,
    p: Piece,
    shade: SquareColor,
) -> bool {
    match spec_sprite_lookup(sprites, p.color, shade, p.kind) {
        Some(bytes) => png_decodable(bytes) && png_width(bytes) <= SQUARE_WIDTH && png_height(
            bytes,
        ) <= SQUARE_HEIGHT,
        None => false,
    }
}

/// Every piece of the grid has a usable sprite in the store, keyed by its
/// color, the fill class of its cell, and its kind.
pub open spec fn spec_assets_good(
    sprites: Seq<crate::assets::SpriteAsset>,
    g: Seq<Option<Piece>>,
    perspective: Player,
    last: Option<Move>,
) -> bool {
    forall|i: int|
        0 <= i < 64 ==> (#[trigger] g[i] matches Some(p) ==> spec_sprite_good(
            sprites,
            p,
            spec_square_color((i % 8) as u8, (i / 8) as u8, perspective, last),
        ))
}


/// A string holding one character.
fn one_char_string(c: char) -> (s: String)
    ensures
        s@ == seq![c],
{
    let mut s = String::new();
    crate::strutil::push_char(&mut s, c);
    proof {
        assert(s@ =~= seq![c]);
    }
    s
}

/// The 16 coordinate label runs of a rendered board, in drawing order: for
/// each of the 8 grid rows its perspective-adjusted rank digit at the fixed
/// left margin, vertically centered on the row; then for each of the 8 grid
/// columns its perspective-adjusted file letter at the fixed bottom margin,
/// horizontally centered on the column. The texts go through the same
/// shared label transform as square coloring and grid reversal.
pub open spec fn spec_coordinate_labels(perspective: Player) -> Seq<(char, u32, u32)> {
    Seq::new(
        16,
        |i: int|
            if 0 <= i < 8 {
                (
                    crate::grid::digit_char(spec_cell_label(0, i as u8, perspective).1 as int),
                    RANK_EDGE_PADDING,
                    ((i * SQUARE_HEIGHT + SQUARE_HEIGHT / 2) as u32),
                )
            } else {
                (
                    crate::square::spec_file_char(
                        (spec_cell_label((i - 8) as u8, 0, perspective).0 - 97) as u8,
                    ),
                    (((i - 8) * SQUARE_WIDTH + SQUARE_WIDTH / 2 + RANK_RIGHT_PADDING) as u32),
                    (IMAGE_HEIGHT - FILE_EDGE_PADDING) as u32,
                )
            },
    )
}

/// Computes the coordinate label runs: each entry a character with the
/// pixel position it is drawn at.
pub fn coordinate_labels(perspective: Player) -> (v: Vec<(char, u32, u32)>)
    ensures
        v@ == spec_coordinate_labels(perspective),
{
    let mut v: Vec<(char, u32, u32)> = Vec::new();
    let mut rank: u8 = 0;
    while rank < 8
        invariant
            rank <= 8,
            v@.len() == rank as int,
            forall|i: int|
                0 <= i < rank ==> v@[i] == spec_coordinate_labels(perspective)[i],
        decreases 8 - rank,
    {
        let label = crate::square::cell_label(0, rank, perspective);
        let c = crate::grid::digit_char_exec(label.1);
        let y = (rank as u32) * SQUARE_HEIGHT + SQUARE_HEIGHT / 2;
        v.push((c, RANK_EDGE_PADDING, y));
        rank = rank + 1;
    }
    let mut file: u8 = 0;
    while file < 8
        invariant
            file <= 8,
            v@.len() == 8 + file as int,
            forall|i: int|
                0 <= i < 8 + file ==> v@[i] == spec_coordinate_labels(perspective)[i],
        decreases 8 - file,
    {
        let label = crate::square::cell_label(file, 0, perspective);
        let c = crate::square::file_char(label.0 - 97);
        let x = (file as u32) * SQUARE_WIDTH + SQUARE_WIDTH / 2 + RANK_RIGHT_PADDING;
        v.push((c, x, IMAGE_HEIGHT - FILE_EDGE_PADDING));
        file = file + 1;
    }
    proof {
        assert(v@ =~= spec_coordinate_labels(perspective));
    }
    v
}

/// Draws the 16 coordinate label runs of `spec_coordinate_labels`, each a
/// one-character text at its position, in the fixed label color. What the
/// font rasterizes for each run is up to the font and is not modeled, so
/// this contract pins the dimensions only; the runs themselves are pinned
/// by `coordinate_labels`.
fn draw_coordinates(im: &mut Canvas, font: &ril::text::Font, perspective: Player)
    requires
        image_width(*old(im)) == IMAGE_WIDTH,
        image_height(*old(im)) == IMAGE_HEIGHT,
    ensures
        image_width(*final(im)) == IMAGE_WIDTH,
        image_height(*final(im)) == IMAGE_HEIGHT,
{
    let labels = coordinate_labels(perspective);
    let n = labels.len();
    let mut i: usize = 0;
    while i < n
        invariant
            n == labels@.len(),
            image_width(*im) == IMAGE_WIDTH,
            image_height(*im) == IMAGE_HEIGHT,
        decreases n - i,
    {
        let entry = labels[i];
        let text = one_char_string(entry.0);
        img_draw_text(im, font, text.as_str(), entry.1, entry.2, (255, 255, 255, 255));
        i = i + 1;
    }
}

/// Fills one board square with a color, at pixel offset (square_x,
/// square_y): afterwards every pixel of the square holds exactly that color
/// and every other pixel of the canvas is untouched.
fn fill_square(im: &mut Canvas, square_x: u32, square_y: u32, rgba: (u8, u8, u8, u8))
    requires
        image_width(*old(im)) == IMAGE_WIDTH,
        image_height(*old(im)) == IMAGE_HEIGHT,
        square_x + SQUARE_WIDTH <= IMAGE_WIDTH,
        square_y + SQUARE_HEIGHT <= IMAGE_HEIGHT,
    ensures
        image_width(*final(im)) == IMAGE_WIDTH,
        image_height(*final(im)) == IMAGE_HEIGHT,
        forall|px: u32, py: u32|
            square_x <= px < square_x + SQUARE_WIDTH && square_y <= py < square_y + SQUARE_HEIGHT
                ==> #[trigger] image_pixels(*final(im))[(px, py)] == rgba,
        forall|px: u32, py: u32|
            !(square_x <= px < square_x + SQUARE_WIDTH && square_y <= py < square_y
                + SQUARE_HEIGHT) ==> #[trigger] image_pixels(*final(im))[(px, py)]
                == image_pixels(*old(im))[(px, py)],
{
    let mut y: u32 = square_y;
    while y < square_y + SQUARE_HEIGHT
        invariant
            square_y <= y <= square_y + SQUARE_HEIGHT,
            square_x + SQUARE_WIDTH <= IMAGE_WIDTH,
            square_y + SQUARE_HEIGHT <= IMAGE_HEIGHT,
            image_width(*im) == IMAGE_WIDTH,
            image_height(*im) == IMAGE_HEIGHT,
            forall|px: u32, py: u32|
                square_x <= px < square_x + SQUARE_WIDTH && square_y <= py < y
                    ==> #[trigger] image_pixels(*im)[(px, py)] == rgba,
            forall|px: u32, py: u32|
                !(square_x <= px < square_x + SQUARE_WIDTH && square_y <= py < square_y
                    + SQUARE_HEIGHT) ==> #[trigger] image_pixels(*im)[(px, py)] == image_pixels(
                    *old(im),
                )[(px, py)],
        decreases square_y + SQUARE_HEIGHT - y,
    {
        let mut x: u32 = square_x;
        while x < square_x + SQUARE_WIDTH
            invariant
                square_x <= x <= square_x + SQUARE_WIDTH,
                square_y <= y < square_y + SQUARE_HEIGHT,
                square_x + SQUARE_WIDTH <= IMAGE_WIDTH,
                square_y + SQUARE_HEIGHT <= IMAGE_HEIGHT,
                image_width(*im) == IMAGE_WIDTH,
                image_height(*im) == IMAGE_HEIGHT,
                forall|px: u32, py: u32|
                    square_x <= px < square_x + SQUARE_WIDTH && square_y <= py < y
                        ==> #[trigger] image_pixels(*im)[(px, py)] == rgba,
                forall|px: u32|
                    square_x <= px < x ==> #[trigger] image_pixels(*im)[(px, y)] == rgba,
                forall|px: u32, py: u32|
                    !(square_x <= px < square_x + SQUARE_WIDTH && square_y <= py < square_y
                        + SQUARE_HEIGHT) ==> #[trigger] image_pixels(*im)[(px, py)]
                        == image_pixels(*old(im))[(px, py)],
            decreases square_x + SQUARE_WIDTH - x,
        {
            img_set_pixel(im, x, y, rgba);
            x = x + 1;
        }
        y = y + 1;
    }
}

/// Which cell a board-area pixel column or row falls in: its coordinate
/// divided by the square size.
proof fn lemma_coord_cell(a: int, q: int)
    requires
        0 <= q,
        80 * q <= a < 80 * q + 80,
    ensures
        a / 80 == q,
{
    assert(a / 80 == q) by (nonlinear_arith)
        requires
            0 <= q,
            80 * q <= a < 80 * q + 80,
    ;
}

/// The converse: a coordinate in cell `q` lies in that cell's pixel range.
proof fn lemma_cell_coord(a: int, q: int)
    requires
        0 <= a,
        a / 80 == q,
    ensures
        80 * q <= a < 80 * q + 80,
{
    assert(80 * q <= a < 80 * q + 80) by (nonlinear_arith)
        requires
            0 <= a,
            a / 80 == q,
    ;
}

/// The color owed at board-area pixel (x, y) once the board is painted: the
/// fill of its cell's class, or nothing where the cell's sprite covers it
/// (sprite pixels compose over the fill and are not pinned here).
pub open spec fn spec_painted_pixel(
    sprites: Seq<crate::assets::SpriteAsset>,
    g: Seq<Option<Piece>>,
    perspective: Player,
    last: Option<Move>,
    x: u32,
    y: u32,
) -> Option<(u8, u8, u8, u8)>
    recommends
        RANK_RIGHT_PADDING <= x < RANK_RIGHT_PADDING + 8 * SQUARE_WIDTH,
        y < 8 * SQUARE_HEIGHT,
{
    let f = ((x - RANK_RIGHT_PADDING) / (SQUARE_WIDTH as int)) as u8;
    let r = ((y as int) / (SQUARE_HEIGHT as int)) as u8;
    let shade = spec_square_color(f, r, perspective, last);
    let fill = spec_square_rgba(shade);
    match g[r * 8 + f] {
        Option::None => Some(fill),
        Option::Some(p) => match spec_sprite_lookup(sprites, p.color, shade, p.kind) {
            Option::Some(bytes) => {
                let w = png_width(bytes);
                let h = png_height(bytes);
                let px0 = (f as u32) * SQUARE_WIDTH + RANK_RIGHT_PADDING + (SQUARE_WIDTH - w) / 2;
                let py0 = (r as u32) * SQUARE_HEIGHT + (SQUARE_HEIGHT - h) / 2;
                if px0 <= x < px0 + w && py0 <= y < py0 + h {
                    Option::None
                } else {
                    Some(fill)
                }
            },
            Option::None => Option::None,
        },
    }
}

/// Paints the board squares in their fill classes and composites each
/// piece's sprite, centered in its square. Succeeds exactly when every piece
/// of the grid has a usable sprite, and then every board-area pixel outside
/// a sprite's box holds its cell's fill color and every pixel outside the
/// board area is untouched; it fails, an asset error, when a needed sprite
/// is missing from the store, cannot be decoded, or does not fit inside a
/// square.
fn paint_board(
    im: &mut Canvas,
    grid: &BoardGrid,
    perspective: Player,
    last: Option<Move>,
    assets: &AssetStore,
) -> (r: Result<(), RenderError>)
    requires
        image_width(*old(im)) == IMAGE_WIDTH,
        image_height(*old(im)) == IMAGE_HEIGHT,
        grid.wf(),
        last matches Some(m) ==> m.wf(),
    ensures
        image_width(*final(im)) == IMAGE_WIDTH,
        image_height(*final(im)) == IMAGE_HEIGHT,
        r is Ok <==> spec_assets_good(assets.sprites_seq(), grid@, perspective, last),
        r matches Err(e) ==> e == RenderError::AssetUnavailable,
        r is Ok ==> forall|x: u32, y: u32|
            RANK_RIGHT_PADDING <= x < RANK_RIGHT_PADDING + 8 * SQUARE_WIDTH && y < 8
                * SQUARE_HEIGHT ==> (spec_painted_pixel(
                assets.sprites_seq(),
                grid@,
                perspective,
                last,
                x,
                y,
            ) matches Some(c) ==> #[trigger] image_pixels(*final(im))[(x, y)] == c),
        forall|x: u32, y: u32|
            !(RANK_RIGHT_PADDING <= x < RANK_RIGHT_PADDING + 8 * SQUARE_WIDTH && y < 8
                * SQUARE_HEIGHT) ==> #[trigger] image_pixels(*final(im))[(x, y)] == image_pixels(
                *old(im),
            )[(x, y)],
{
    let mut rank: u8 = 0;
    while rank < 8
        invariant
            rank <= 8,
            grid.wf(),
            last matches Some(m) ==> m.wf(),
            image_width(*im) == IMAGE_WIDTH,
            image_height(*im) == IMAGE_HEIGHT,
            forall|i: int|
                0 <= i < rank * 8 ==> (#[trigger] grid@[i] matches Some(p) ==> spec_sprite_good(
                    assets.sprites_seq(),
                    p,
                    spec_square_color((i % 8) as u8, (i / 8) as u8, perspective, last),
                )),
            forall|x: u32, y: u32|
                RANK_RIGHT_PADDING <= x < RANK_RIGHT_PADDING + 8 * SQUARE_WIDTH && y < 8
                    * SQUARE_HEIGHT && ((y as int) / (SQUARE_HEIGHT as int)) * 8 + (x - RANK_RIGHT_PADDING)
                    / (SQUARE_WIDTH as int) < rank * 8 ==> (spec_painted_pixel(
                    assets.sprites_seq(),
                    grid@,
                    perspective,
                    last,
                    x,
                    y,
                ) matches Some(c) ==> #[trigger] image_pixels(*im)[(x, y)] == c),
            forall|x: u32, y: u32|
                !(RANK_RIGHT_PADDING <= x < RANK_RIGHT_PADDING + 8 * SQUARE_WIDTH && y < 8
                    * SQUARE_HEIGHT) ==> #[trigger] image_pixels(*im)[(x, y)] == image_pixels(
                    *old(im),
                )[(x, y)],
        decreases 8 - rank,
    {
        let mut file: u8 = 0;
        while file < 8
            invariant
                rank < 8,
                file <= 8,
                grid.wf(),
                last matches Some(m) ==> m.wf(),
                image_width(*im) == IMAGE_WIDTH,
                image_height(*im) == IMAGE_HEIGHT,
                forall|i: int|
                    0 <= i < rank * 8 + file ==> (#[trigger] grid@[i] matches Some(p)
                        ==> spec_sprite_good(
                        assets.sprites_seq(),
                        p,
                        spec_square_color((i % 8) as u8, (i / 8) as u8, perspective, last),
                    )),
                forall|x: u32, y: u32|
                    RANK_RIGHT_PADDING <= x < RANK_RIGHT_PADDING + 8 * SQUARE_WIDTH && y < 8
                        * SQUARE_HEIGHT && ((y as int) / (SQUARE_HEIGHT as int)) * 8 + (x
                        - RANK_RIGHT_PADDING) / (SQUARE_WIDTH as int) < rank * 8 + file ==> (
                    spec_painted_pixel(
                        assets.sprites_seq(),
                        grid@,
                        perspective,
                        last,
                        x,
                        y,
                    ) matches Some(c) ==> #[trigger] image_pixels(*im)[(x, y)] == c),
                forall|x: u32, y: u32|
                    !(RANK_RIGHT_PADDING <= x < RANK_RIGHT_PADDING + 8 * SQUARE_WIDTH && y < 8
                        * SQUARE_HEIGHT) ==> #[trigger] image_pixels(*im)[(x, y)] == image_pixels(
                        *old(im),
                    )[(x, y)],
            decreases 8 - file,
        {
            proof {
                let i = rank * 8 + file;
                assert((i as int) % 8 == file as int && (i as int) / 8 == rank as int) by (
                nonlinear_arith)
                    requires
                        0 <= rank < 8,
                        0 <= file < 8,
                        i == rank * 8 + file,
                ;
            }
            let square_x = (file as u32) * SQUARE_WIDTH + RANK_RIGHT_PADDING;
            let square_y = (rank as u32) * SQUARE_HEIGHT;
            let color = get_square_color(file, rank, perspective, last);
            let ghost pixels_entry = image_pixels(*im);
            fill_square(im, square_x, square_y, square_rgba(color));
            let cell = grid.get(rank, file);
            let ghost sprite_w: u32 = 0;
            let ghost sprite_h: u32 = 0;
            let ghost paste_x: u32 = 0;
            let ghost paste_y: u32 = 0;
            let ghost has_sprite = false;
            match cell {
                Some(p) => {
                    let data = match assets.sprite(p.color, color, p.kind) {
                        Some(d) => d,
                        None => {
                            proof {
                                assert(grid@[rank * 8 + file] matches Some(q) && !spec_sprite_good(
                                    assets.sprites_seq(),
                                    q,
                                    spec_square_color(file, rank, perspective, last),
                                ));
                            }
                            return Err(RenderError::AssetUnavailable);
                        },
                    };
                    let sprite = match img_decode_png(data) {
                        Ok(s) => s,
                        Err(_) => {
                            proof {
                                assert(grid@[rank * 8 + file] matches Some(q) && !spec_sprite_good(
                                    assets.sprites_seq(),
                                    q,
                                    spec_square_color(file, rank, perspective, last),
                                ));
                            }
                            return Err(RenderError::AssetUnavailable);
                        },
                    };
                    let w = img_width_of(&sprite);
                    let h = img_height_of(&sprite);
                    if w > SQUARE_WIDTH || h > SQUARE_HEIGHT {
                        proof {
                            assert(grid@[rank * 8 + file] matches Some(q) && !spec_sprite_good(
                                assets.sprites_seq(),
                                q,
                                spec_square_color(file, rank, perspective, last),
                            ));
                        }
                        return Err(RenderError::AssetUnavailable);
                    }
                    let px0 = square_x + (SQUARE_WIDTH - w) / 2;
                    let py0 = square_y + (SQUARE_HEIGHT - h) / 2;
                    img_paste(im, px0, py0, &sprite);
                    proof {
                        sprite_w = w;
                        sprite_h = h;
                        paste_x = px0;
                        paste_y = py0;
                        has_sprite = true;
                    }
                },
                None => {},
            }
            proof {
                let sprites = assets.sprites_seq();
                let shade = spec_square_color(file, rank, perspective, last);
                let fill = spec_square_rgba(shade);
                assert forall|x: u32, y: u32|
                    RANK_RIGHT_PADDING <= x < RANK_RIGHT_PADDING + 8 * SQUARE_WIDTH && y < 8
                        * SQUARE_HEIGHT && ((y as int) / (SQUARE_HEIGHT as int)) * 8 + (x
                        - RANK_RIGHT_PADDING) / (SQUARE_WIDTH as int) < rank * 8 + file
                        + 1 implies (spec_painted_pixel(sprites, grid@, perspective, last, x, y)
                    matches Some(c) ==> #[trigger] image_pixels(*im)[(x, y)] == c) by {
                    let fx = (x - RANK_RIGHT_PADDING) as int / 80;
                    let ry = y as int / 80;
                    lemma_cell_coord((x - RANK_RIGHT_PADDING) as int, fx);
                    lemma_cell_coord(y as int, ry);
                    if ry == rank as int && fx == file as int {
                        assert(square_x <= x < square_x + SQUARE_WIDTH);
                        assert(square_y <= y < square_y + SQUARE_HEIGHT);
                        if has_sprite {
                            if !(paste_x <= x < paste_x + sprite_w && paste_y <= y < paste_y
                                + sprite_h) {
                                assert(image_pixels(*im)[(x, y)] == fill);
                            }
                        } else {
                            assert(image_pixels(*im)[(x, y)] == fill);
                        }
                    } else {
                        assert(ry * 8 + fx < rank * 8 + file);
                        assert(!(square_x <= x < square_x + SQUARE_WIDTH && square_y <= y
                            < square_y + SQUARE_HEIGHT)) by {
                            if square_x <= x < square_x + SQUARE_WIDTH && square_y <= y < square_y
                                + SQUARE_HEIGHT {
                                lemma_coord_cell((x - RANK_RIGHT_PADDING) as int, file as int);
                                lemma_coord_cell(y as int, rank as int);
                            }
                        }
                        assert(image_pixels(*im)[(x, y)] == pixels_entry[(x, y)]);
                    }
                }
                assert forall|x: u32, y: u32|
                    !(RANK_RIGHT_PADDING <= x < RANK_RIGHT_PADDING + 8 * SQUARE_WIDTH && y < 8
                        * SQUARE_HEIGHT) implies #[trigger] image_pixels(*im)[(x, y)]
                    == image_pixels(*old(im))[(x, y)] by {
                    assert(!(square_x <= x < square_x + SQUARE_WIDTH && square_y <= y < square_y
                        + SQUARE_HEIGHT));
                    assert(image_pixels(*im)[(x, y)] == pixels_entry[(x, y)]);
                }
            }
            file = file + 1;
        }
        rank = rank + 1;
    }
    proof {
        assert forall|x: u32, y: u32|
            RANK_RIGHT_PADDING <= x < RANK_RIGHT_PADDING + 8 * SQUARE_WIDTH && y < 8
                * SQUARE_HEIGHT implies (spec_painted_pixel(
            assets.sprites_seq(),
            grid@,
            perspective,
            last,
            x,
            y,
        ) matches Some(c) ==> #[trigger] image_pixels(*im)[(x, y)] == c) by {
            let fx = (x - RANK_RIGHT_PADDING) as int / 80;
            let ry = y as int / 80;
            lemma_cell_coord((x - RANK_RIGHT_PADDING) as int, fx);
            lemma_cell_coord(y as int, ry);
            assert(ry * 8 + fx < 64);
        }
    }
    Ok(())
}

/// Renders the board a position string describes: coordinate labels, square
/// fills with last-move highlighting, piece sprites, all encoded as one PNG
/// of the fixed image dimensions, whose board-area pixels outside the sprite
/// boxes are pinned to their cells' fill colors. The position fails exactly
/// when it does not parse; a missing font or a missing, undecodable or
/// oversized sprite fails the call with an asset error, exactly then; with
/// position, font and sprites all good, success is owed. No partial image is
/// ever returned. (The encoding-error variant remains for the encoder's
/// error channel, which for this canvas has no failure path left.)
pub fn render_board(fen: &str, perspective: Player, last: Option<Move>, assets: &AssetStore) -> (r:
    Result<Vec<u8>, RenderError>)
    requires
        last matches Some(m) ==> m.wf(),
    ensures
        spec_grid_of_fen(fen@, perspective == Player::Black) is None <==> r == Err::<
            Vec<u8>,
            RenderError,
        >(RenderError::MalformedPosition),
        r is Ok ==> (spec_grid_of_fen(fen@, perspective == Player::Black) matches Some(cells)
            && assets.has_font() && spec_assets_good(
            assets.sprites_seq(),
            cells,
            perspective,
            last,
        )),
        spec_grid_of_fen(fen@, perspective == Player::Black) matches Some(cells) ==> (r == Err::<
            Vec<u8>,
            RenderError,
        >(RenderError::AssetUnavailable) <==> !(assets.has_font() && spec_assets_good(
            assets.sprites_seq(),
            cells,
            perspective,
            last,
        ))),
        (spec_grid_of_fen(fen@, perspective == Player::Black) matches Some(cells)
            && assets.has_font() && spec_assets_good(
            assets.sprites_seq(),
            cells,
            perspective,
            last,
        )) ==> r is Ok,
        r matches Ok(bytes) ==> png_decodable(bytes@) && png_width(bytes@) == IMAGE_WIDTH
            && png_height(bytes@) == IMAGE_HEIGHT,
        r matches Ok(bytes) ==> (spec_grid_of_fen(fen@, perspective == Player::Black)
            matches Some(cells) ==> forall|x: u32, y: u32|
            RANK_RIGHT_PADDING <= x < RANK_RIGHT_PADDING + 8 * SQUARE_WIDTH && y < 8
                * SQUARE_HEIGHT ==> (spec_painted_pixel(
                assets.sprites_seq(),
                cells,
                perspective,
                last,
                x,
                y,
            ) matches Some(c) ==> #[trigger] png_pixels(bytes@)[(x, y)] == c)),
{
    let grid = match crate::grid::parse_position(fen, matches!(perspective, Player::Black)) {
        Ok(g) => g,
        Err(e) => {
            return Err(e);
        },
    };
    proof {
        assert(IMAGE_WIDTH * IMAGE_HEIGHT <= 0xffff_ffff) by (nonlinear_arith)
            requires
                IMAGE_WIDTH == 670,
                IMAGE_HEIGHT == 670,
        ;
    }
    let mut im = img_new(IMAGE_WIDTH, IMAGE_HEIGHT, (0, 0, 0, 0));
    let font = match assets.font() {
        Some(f) => f,
        None => {
            return Err(RenderError::AssetUnavailable);
        },
    };
    draw_coordinates(&mut im, font, perspective);
    match paint_board(&mut im, &grid, perspective, last, assets) {
        Ok(()) => {},
        Err(e) => {
            return Err(e);
        },
    }
    match img_encode_png(&im) {
        Ok(bytes) => {
            proof {
                assert forall|x: u32, y: u32|
                    RANK_RIGHT_PADDING <= x < RANK_RIGHT_PADDING + 8 * SQUARE_WIDTH && y < 8
                        * SQUARE_HEIGHT implies (spec_painted_pixel(
                    assets.sprites_seq(),
                    grid@,
                    perspective,
                    last,
                    x,
                    y,
                ) matches Some(c) ==> #[trigger] png_pixels(bytes@)[(x, y)] == c) by {
                    assert(x < IMAGE_WIDTH && y < IMAGE_HEIGHT);
                    assert(png_pixels(bytes@)[(x, y)] == image_pixels(im)[(x, y)]);
                }
            }
            Ok(bytes)
        },
        Err(_) => Err(RenderError::EncodingFailure),
    }
}

/// Perspective symmetry of square coloring: whatever move was played last,
/// cell (file, rank) rendered from White's side takes the same fill class as
/// the point-reflected cell (7 - file, 7 - rank) rendered from Black's side.
pub proof fn lemma_square_color_point_reflection(file: u8, rank: u8, last: Option<Move>)
    requires
        file < 8,
        rank < 8,
    ensures
        spec_square_color(file, rank, Player::White, last) == spec_square_color(
            (7 - file) as u8,
            (7 - rank) as u8,
            Player::Black,
            last,
        ),
{
    crate::square::lemma_label_point_reflection(file, rank);
}

} // verus!
