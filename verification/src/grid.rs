use crate::errors::RenderError;
use crate::piece::{spec_piece_of_char, spec_placeable, Piece};
use vstd::pervasive::VecAdditionalExecFns;
use vstd::prelude::*;
use vstd::string::StrSliceExecFns;

verus! {

/// The fully empty 8x8 grid, rank-major.
pub open spec fn spec_empty_grid() -> Seq<Option<Piece>> {
    Seq::new(64, |i: int| None::<Piece>)
}

/// Whether `c` is a run-length token of the board-layout grammar: a decimal
/// digit 1..=8 meaning that many consecutive empty files.
pub open spec fn is_run_digit(c: char) -> bool {
    '1' <= c && c <= '8'
}

/// The run length a digit token stands for.
pub open spec fn run_len(c: char) -> int
    recommends
        is_run_digit(c),
{
    if c == '1' {
        1
    } else if c == '2' {
        2
    } else if c == '3' {
        3
    } else if c == '4' {
        4
    } else if c == '5' {
        5
    } else if c == '6' {
        6
    } else if c == '7' {
        7
    } else {
        8
    }
}

/// One step at a time, the board-layout grammar, starting from a partly
/// filled grid with the cursor at (row, col). A rank delimiter moves to the
/// next rank; a run digit skips that many files; a piece character fills one
/// cell; a blank ends the board field once the last rank has been reached
/// (whatever metadata follows it is not read). Anything else, a rank past the
/// eighth, or a rank overrunning its eight files, fails the parse.
pub open spec fn spec_parse_from(
    s: Seq<char>,
    row: int,
    col: int,
    g: Seq<Option<Piece>>,
) -> Option<Seq<Option<Piece>>>
    decreases s.len(),
{
    if s.len() == 0 {
        Some(g)
    } else {
        let c = s[0];
        let rest = s.drop_first();
        if c == ' ' {
            if row >= 7 {
                Some(g)
            } else {
                None
            }
        } else if c == '/' {
            if row >= 7 {
                None
            } else {
                spec_parse_from(rest, row + 1, 0, g)
            }
        } else if is_run_digit(c) {
            if col + run_len(c) > 8 {
                None
            } else {
                spec_parse_from(rest, row, col + run_len(c), g)
            }
        } else if spec_piece_of_char(c) is Some {
            if col >= 8 {
                None
            } else {
                spec_parse_from(rest, row, col + 1, g.update(row * 8 + col, spec_piece_of_char(c)))
            }
        } else {
            None
        }
    }
}

/// The grid a board-layout character sequence describes, if any.
pub open spec fn spec_parse(s: Seq<char>) -> Option<Seq<Option<Piece>>> {
    spec_parse_from(s, 0, 0, spec_empty_grid())
}

/// The index of the first blank in `s`, or its length if there is none.
pub open spec fn spec_first_space(s: Seq<char>) -> int
    decreases s.len(),
{
    if s.len() == 0 {
        0
    } else if s[0] == ' ' {
        0
    } else {
        1 + spec_first_space(s.drop_first())
    }
}

/// The board-layout field of a position string: everything before the first
/// blank.
pub open spec fn spec_board_field(s: Seq<char>) -> Seq<char> {
    s.take(spec_first_space(s))
}

/// The grid a position string describes under a perspective. Viewed from
/// Black's side the stored ranks and files both read in the opposite
/// direction, so the board field is reversed as a whole before parsing.
pub open spec fn spec_grid_of_fen(s: Seq<char>, reversed: bool) -> Option<Seq<Option<Piece>>> {
    if reversed {
        spec_parse(spec_board_field(s).reverse())
    } else {
        spec_parse(s)
    }
}

/// A well-formed parsed grid: 64 cells, each empty or holding a placeable
/// piece.
pub open spec fn grid_wf(g: Seq<Option<Piece>>) -> bool {
    &&& g.len() == 64
    &&& forall|i: int|
        0 <= i < 64 ==> (#[trigger] g[i] matches Some(p) ==> spec_placeable(p))
}

/// An 8x8 matrix of optional pieces, rank-major: cell (row, file) sits at
/// index `row * 8 + file`, and row 0 is the first rank of the board field,
/// the top row of the rendered image.
pub struct BoardGrid {
    cells: Vec<Option<Piece>>,
}

impl View for BoardGrid {
    type V = Seq<Option<Piece>>;

    closed spec fn view(&self) -> Seq<Option<Piece>> {
        self.cells@
    }
}

impl BoardGrid {
    /// A grid is well formed when its cell sequence is.
    pub open spec fn wf(self) -> bool {
        grid_wf(self@)
    }

    /// Builds the fully empty grid.
    pub fn new_empty() -> (g: Self)
        ensures
            g@ == spec_empty_grid(),
            g.wf(),
    {
        let mut cells: Vec<Option<Piece>> = Vec::new();
        let mut i: usize = 0;
        while i < 64
            invariant
                i <= 64,
                cells@.len() == i,
                forall|j: int| 0 <= j < i ==> cells@[j] is None,
            decreases 64 - i,
        {
            cells.push(None);
            i = i + 1;
        }
        proof {
            assert(cells@ =~= spec_empty_grid());
        }
        BoardGrid { cells }
    }

    /// Reads the cell at (row, file).
    pub fn get(&self, row: u8, file: u8) -> (p: Option<Piece>)
        requires
            row < 8,
            file < 8,
            self.wf(),
        ensures
            p == self@[row * 8 + file],
    {
        self.cells[(row as usize) * 8 + (file as usize)]
    }
}

/// The characters of a string, in order, as a vector.
pub fn str_chars(s: &str) -> (v: Vec<char>)
    ensures
        v@ == s@,
{
    let n = s.unicode_len();
    let mut v: Vec<char> = Vec::new();
    let mut i: usize = 0;
    while i < n
        invariant
            i <= n,
            n == s@.len(),
            v@ == s@.take(i as int),
        decreases n - i,
    {
        let c = s.get_char(i);
        v.push(c);
        proof {
            assert(s@.take(i + 1) =~= s@.take(i as int).push(s@[i as int]));
        }
        i = i + 1;
    }
    proof {
        assert(s@.take(n as int) =~= s@);
    }
    v
}

/// Parses a board-layout character sequence into a grid, step for step the
/// grammar of `spec_parse_from`.
pub fn parse_chars(chars: &Vec<char>) -> (r: Result<BoardGrid, RenderError>)
    ensures
        r matches Ok(g) ==> g.wf() && spec_parse(chars@) == Some(g@),
        r is Err ==> spec_parse(chars@) is None,
        r matches Err(e) ==> e == RenderError::MalformedPosition,
{
    let mut grid = BoardGrid::new_empty();
    let mut row: u8 = 0;
    let mut col: u8 = 0;
    let n = chars.len();
    let mut i: usize = 0;
    proof {
        assert(chars@.skip(0) =~= chars@);
    }
    while i < n
        invariant
            i <= n,
            n == chars@.len(),
            row < 8,
            col <= 8,
            grid.wf(),
            spec_parse_from(chars@.skip(i as int), row as int, col as int, grid@) == spec_parse(
                chars@,
            ),
        decreases n - i,
    {
        let c = chars[i];
        proof {
            assert(chars@.skip(i as int).len() == n - i);
            assert(chars@.skip(i as int)[0] == chars@[i as int]);
            assert(chars@.skip(i as int).drop_first() =~= chars@.skip(i + 1));
        }
        if c == ' ' {
            if row >= 7 {
                return Ok(grid);
            } else {
                return Err(RenderError::MalformedPosition);
            }
        } else if c == '/' {
            if row >= 7 {
                return Err(RenderError::MalformedPosition);
            }
            row = row + 1;
            col = 0;
        } else if '1' <= c && c <= '8' {
            let run: u8 = if c == '1' {
                1
            } else if c == '2' {
                2
            } else if c == '3' {
                3
            } else if c == '4' {
                4
            } else if c == '5' {
                5
            } else if c == '6' {
                6
            } else if c == '7' {
                7
            } else {
                8
            };
            if col + run > 8 {
                return Err(RenderError::MalformedPosition);
            }
            col = col + run;
        } else {
            match crate::piece::Piece::from_fen(c) {
                Ok(p) => {
                    if col >= 8 {
                        return Err(RenderError::MalformedPosition);
                    }
                    proof {
                        crate::piece::lemma_piece_char_placeable(c);
                    }
                    grid.cells.set((row as usize) * 8 + (col as usize), Some(p));
                    col = col + 1;
                },
                Err(_) => {
                    return Err(RenderError::MalformedPosition);
                },
            }
        }
        i = i + 1;
    }
    proof {
        assert(chars@.skip(n as int) =~= Seq::<char>::empty());
    }
    Ok(grid)
}


/// The digit character that writes a run of `n` empty files.
pub open spec fn digit_char(n: int) -> char
    recommends
        1 <= n <= 8,
{
    if n == 1 {
        '1'
    } else if n == 2 {
        '2'
    } else if n == 3 {
        '3'
    } else if n == 4 {
        '4'
    } else if n == 5 {
        '5'
    } else if n == 6 {
        '6'
    } else if n == 7 {
        '7'
    } else {
        '8'
    }
}

/// The characters that write the rest of one rank, from file `col` on, with
/// `run` empty files already seen and not yet written out. Runs of empty
/// files become one maximal digit token, pieces their notation character.
pub open spec fn spec_rank_chars(g: Seq<Option<Piece>>, row: int, col: int, run: int) -> Seq<char>
    decreases 8 - col,
{
    if col >= 8 {
        if run > 0 {
            seq![digit_char(run)]
        } else {
            seq![]
        }
    } else {
        match g[row * 8 + col] {
            Option::None => spec_rank_chars(g, row, col + 1, run + 1),
            Option::Some(p) => (if run > 0 {
                seq![digit_char(run)]
            } else {
                seq![]
            }) + seq![crate::piece::spec_char_of_piece(p)] + spec_rank_chars(g, row, col + 1, 0),
        }
    }
}

/// The characters that write the ranks from `row` on, separated by the rank
/// delimiter.
pub open spec fn spec_rows_chars(g: Seq<Option<Piece>>, row: int) -> Seq<char>
    decreases 8 - row,
{
    if row >= 8 {
        seq![]
    } else if row == 7 {
        spec_rank_chars(g, 7, 0, 0)
    } else {
        spec_rank_chars(g, row, 0, 0) + seq!['/'] + spec_rows_chars(g, row + 1)
    }
}

/// The board-layout field that writes a whole grid.
pub open spec fn spec_grid_chars(g: Seq<Option<Piece>>) -> Seq<char> {
    spec_rows_chars(g, 0)
}

/// What parsing the written rank adds to a grid `g`: every piece of `cells`
/// in row `row` from file `j` on, everything else left as it was.
pub open spec fn write_row(
    g: Seq<Option<Piece>>,
    cells: Seq<Option<Piece>>,
    row: int,
    j: int,
) -> Seq<Option<Piece>>
    decreases 8 - j,
{
    if j >= 8 {
        g
    } else {
        let g2 = if cells[row * 8 + j] is Some {
            g.update(row * 8 + j, cells[row * 8 + j])
        } else {
            g
        };
        write_row(g2, cells, row, j + 1)
    }
}

/// `write_row`, applied to every row from `row` on.
pub open spec fn write_rows(
    g: Seq<Option<Piece>>,
    cells: Seq<Option<Piece>>,
    row: int,
) -> Seq<Option<Piece>>
    decreases 8 - row,
{
    if row >= 8 {
        g
    } else {
        write_rows(write_row(g, cells, row, 0), cells, row + 1)
    }
}


/// Every digit character is a run token with its own value back, and is
/// neither a blank, a rank delimiter nor a piece character.
proof fn lemma_digit_char(n: int)
    requires
        1 <= n <= 8,
    ensures
        is_run_digit(digit_char(n)),
        run_len(digit_char(n)) == n,
        digit_char(n) != ' ',
        digit_char(n) != '/',
        spec_piece_of_char(digit_char(n)) is None,
{
}

/// The character of a placeable piece is neither a blank, a rank delimiter
/// nor a run digit, and decodes to the piece itself.
proof fn lemma_piece_char_tokens(p: Piece)
    requires
        spec_placeable(p),
    ensures
        spec_piece_of_char(crate::piece::spec_char_of_piece(p)) == Some(p),
        crate::piece::spec_char_of_piece(p) != ' ',
        crate::piece::spec_char_of_piece(p) != '/',
        !is_run_digit(crate::piece::spec_char_of_piece(p)),
{
    crate::piece::lemma_piece_char_round_trip(p);
}

/// Cell-by-cell reading of `write_row`.
proof fn lemma_write_row_frame(
    g: Seq<Option<Piece>>,
    cells: Seq<Option<Piece>>,
    row: int,
    j: int,
)
    requires
        g.len() == 64,
        cells.len() == 64,
        0 <= row < 8,
        0 <= j <= 8,
    ensures
        write_row(g, cells, row, j).len() == 64,
        forall|p: int|
            0 <= p < 64 ==> #[trigger] write_row(g, cells, row, j)[p] == (if row * 8 + j <= p
                < row * 8 + 8 && cells[p] is Some {
                cells[p]
            } else {
                g[p]
            }),
    decreases 8 - j,
{
    if j < 8 {
        let g2 = if cells[row * 8 + j] is Some {
            g.update(row * 8 + j, cells[row * 8 + j])
        } else {
            g
        };
        lemma_write_row_frame(g2, cells, row, j + 1);
    }
}

/// Cell-by-cell reading of `write_rows`.
proof fn lemma_write_rows_frame(g: Seq<Option<Piece>>, cells: Seq<Option<Piece>>, row: int)
    requires
        g.len() == 64,
        cells.len() == 64,
        0 <= row <= 8,
    ensures
        write_rows(g, cells, row).len() == 64,
        forall|p: int|
            0 <= p < 64 ==> #[trigger] write_rows(g, cells, row)[p] == (if row * 8 <= p < 64
                && cells[p] is Some {
                cells[p]
            } else {
                g[p]
            }),
    decreases 8 - row,
{
    if row < 8 {
        lemma_write_row_frame(g, cells, row, 0);
        lemma_write_rows_frame(write_row(g, cells, row, 0), cells, row + 1);
    }
}

/// Parsing the written remainder of a rank, followed by anything, lands the
/// cursor at the end of the rank with exactly that rank's pieces added.
proof fn lemma_parse_rank(
    cells: Seq<Option<Piece>>,
    row: int,
    col: int,
    run: int,
    g: Seq<Option<Piece>>,
    rest: Seq<char>,
)
    requires
        grid_wf(cells),
        g.len() == 64,
        0 <= row < 8,
        0 <= col <= 8,
        0 <= run <= col,
    ensures
        spec_parse_from(spec_rank_chars(cells, row, col, run) + rest, row, col - run, g)
            == spec_parse_from(rest, row, 8, write_row(g, cells, row, col)),
    decreases 8 - col,
{
    if col >= 8 {
        if run > 0 {
            lemma_digit_char(run);
            let s = spec_rank_chars(cells, row, col, run) + rest;
            assert(s[0] == digit_char(run));
            assert(s.drop_first() =~= rest);
        } else {
            assert(spec_rank_chars(cells, row, col, run) + rest =~= rest);
        }
    } else {
        match cells[row * 8 + col] {
            Option::None => {
                assert(spec_rank_chars(cells, row, col, run) == spec_rank_chars(
                    cells,
                    row,
                    col + 1,
                    run + 1,
                ));
                lemma_parse_rank(cells, row, col + 1, run + 1, g, rest);
            },
            Option::Some(p) => {
                assert(spec_placeable(p));
                lemma_piece_char_tokens(p);
                let pc = crate::piece::spec_char_of_piece(p);
                let tail = seq![pc] + spec_rank_chars(cells, row, col + 1, 0) + rest;
                let g2 = g.update(row * 8 + col, Some(p));
                if run > 0 {
                    lemma_digit_char(run);
                    let s = spec_rank_chars(cells, row, col, run) + rest;
                    assert(s[0] == digit_char(run));
                    assert(s.drop_first() =~= tail);
                    assert(spec_parse_from(s, row, col - run, g) == spec_parse_from(
                        tail,
                        row,
                        col,
                        g,
                    ));
                } else {
                    assert(spec_rank_chars(cells, row, col, run) + rest =~= tail);
                }
                assert(tail[0] == pc);
                assert(tail.drop_first() =~= spec_rank_chars(cells, row, col + 1, 0) + rest);
                assert(spec_parse_from(tail, row, col, g) == spec_parse_from(
                    spec_rank_chars(cells, row, col + 1, 0) + rest,
                    row,
                    col + 1,
                    g2,
                ));
                lemma_parse_rank(cells, row, col + 1, 0, g2, rest);
                assert(write_row(g, cells, row, col) == write_row(g2, cells, row, col + 1));
            },
        }
    }
}

/// Parsing the written ranks from `row` on, starting at the head of row
/// `row`, succeeds and adds exactly those ranks' pieces.
proof fn lemma_parse_rows(cells: Seq<Option<Piece>>, row: int, g: Seq<Option<Piece>>)
    requires
        grid_wf(cells),
        g.len() == 64,
        0 <= row < 8,
    ensures
        spec_parse_from(spec_rows_chars(cells, row), row, 0, g) == Some(
            write_rows(g, cells, row),
        ),
    decreases 8 - row,
{
    lemma_write_row_frame(g, cells, row, 0);
    let g1 = write_row(g, cells, row, 0);
    if row == 7 {
        assert(spec_rows_chars(cells, 7) =~= spec_rank_chars(cells, 7, 0, 0) + Seq::<
            char,
        >::empty());
        lemma_parse_rank(cells, 7, 0, 0, g, Seq::<char>::empty());
        assert(spec_parse_from(Seq::<char>::empty(), 7, 8, g1) == Some(g1));
        assert(write_rows(g, cells, 7) == write_rows(g1, cells, 8));
    } else {
        let rest = seq!['/'] + spec_rows_chars(cells, row + 1);
        assert(spec_rows_chars(cells, row) =~= spec_rank_chars(cells, row, 0, 0) + rest);
        lemma_parse_rank(cells, row, 0, 0, g, rest);
        assert(rest[0] == '/');
        assert(rest.drop_first() =~= spec_rows_chars(cells, row + 1));
        assert(spec_parse_from(rest, row, 8, g1) == spec_parse_from(
            spec_rows_chars(cells, row + 1),
            row + 1,
            0,
            g1,
        ));
        lemma_parse_rows(cells, row + 1, g1);
    }
}

/// Round-trip stability of the grid reconstruction: writing any well-formed
/// grid back to a board-layout field and parsing that field again reproduces
/// the grid exactly, for every grid and hence for the grid of any parsed
/// position string.
pub proof fn lemma_grid_round_trip(g: Seq<Option<Piece>>)
    requires
        grid_wf(g),
    ensures
        spec_parse(spec_grid_chars(g)) == Some(g),
{
    lemma_parse_rows(g, 0, spec_empty_grid());
    lemma_write_rows_frame(spec_empty_grid(), g, 0);
    assert(write_rows(spec_empty_grid(), g, 0) =~= g);
}


/// What still follows the current rank in the written board field: a rank
/// delimiter and the remaining ranks, or nothing after the last rank.
pub open spec fn spec_after_row(g: Seq<Option<Piece>>, row: int) -> Seq<char> {
    if row < 7 {
        seq!['/'] + spec_rows_chars(g, row + 1)
    } else {
        seq![]
    }
}

/// Computes the digit character of a run length.
pub(crate) fn digit_char_exec(n: u8) -> (c: char)
    requires
        1 <= n <= 8,
    ensures
        c == digit_char(n as int),
{
    if n == 1 {
        '1'
    } else if n == 2 {
        '2'
    } else if n == 3 {
        '3'
    } else if n == 4 {
        '4'
    } else if n == 5 {
        '5'
    } else if n == 6 {
        '6'
    } else if n == 7 {
        '7'
    } else {
        '8'
    }
}

impl BoardGrid {
    /// Writes this grid back as a board-layout field, with maximal run
    /// digits for empty files and the rank delimiter between ranks.
    pub fn to_position_string(&self) -> (s: String)
        requires
            self.wf(),
        ensures
            s@ == spec_grid_chars(self@),
    {
        let mut s = String::new();
        let mut row: u8 = 0;
        while row < 8
            invariant
                row <= 8,
                self.wf(),
                s@ + spec_rows_chars(self@, row as int) == spec_grid_chars(self@),
            decreases 8 - row,
        {
            proof {
                if row == 7 {
                    assert(spec_rows_chars(self@, 7) =~= spec_rank_chars(self@, 7, 0, 0)
                        + spec_after_row(self@, 7));
                } else {
                    assert(spec_rows_chars(self@, row as int) =~= spec_rank_chars(
                        self@,
                        row as int,
                        0,
                        0,
                    ) + spec_after_row(self@, row as int));
                }
                assert(s@ + (spec_rank_chars(self@, row as int, 0, 0) + spec_after_row(
                    self@,
                    row as int,
                )) =~= s@ + spec_rank_chars(self@, row as int, 0, 0) + spec_after_row(
                    self@,
                    row as int,
                ));
            }
            let mut col: u8 = 0;
            let mut run: u8 = 0;
            while col < 8
                invariant
                    col <= 8,
                    run <= col,
                    row < 8,
                    self.wf(),
                    s@ + spec_rank_chars(self@, row as int, col as int, run as int)
                        + spec_after_row(self@, row as int) == spec_grid_chars(self@),
                decreases 8 - col,
            {
                match self.get(row, col) {
                    None => {
                        run = run + 1;
                    },
                    Some(p) => {
                        let ghost s_old = s@;
                        let ghost pc = crate::piece::spec_char_of_piece(p);
                        let ghost prefix: Seq<char> = if run > 0 {
                            seq![digit_char(run as int)]
                        } else {
                            seq![]
                        };
                        if run > 0 {
                            let d = digit_char_exec(run);
                            crate::strutil::push_char(&mut s, d);
                        }
                        let c = crate::piece::char_of_piece(p);
                        crate::strutil::push_char(&mut s, c);
                        proof {
                            assert(s@ =~= s_old + prefix + seq![pc]);
                            assert(spec_rank_chars(self@, row as int, col as int, run as int)
                                =~= prefix + seq![pc] + spec_rank_chars(
                                self@,
                                row as int,
                                col + 1,
                                0,
                            ));
                            assert(s@ + spec_rank_chars(self@, row as int, col + 1, 0)
                                + spec_after_row(self@, row as int) =~= s_old + spec_rank_chars(
                                self@,
                                row as int,
                                col as int,
                                run as int,
                            ) + spec_after_row(self@, row as int));
                        }
                        run = 0;
                    },
                }
                col = col + 1;
            }
            let ghost s_before = s@;
            if run > 0 {
                let d = digit_char_exec(run);
                crate::strutil::push_char(&mut s, d);
                proof {
                    assert(s@ =~= s_before + spec_rank_chars(self@, row as int, 8, run as int));
                }
            } else {
                proof {
                    assert(s@ =~= s_before + spec_rank_chars(self@, row as int, 8, 0));
                }
            }
            proof {
                assert(s@ + spec_after_row(self@, row as int) == spec_grid_chars(self@));
            }
            if row < 7 {
                let ghost s_mid = s@;
                crate::strutil::push_char(&mut s, '/');
                proof {
                    assert(spec_after_row(self@, row as int) =~= seq!['/'] + spec_rows_chars(
                        self@,
                        row + 1,
                    ));
                    assert(s@ + spec_rows_chars(self@, row + 1) =~= s_mid + spec_after_row(
                        self@,
                        row as int,
                    ));
                }
            } else {
                proof {
                    assert(s@ + spec_rows_chars(self@, row + 1) =~= s@ + spec_after_row(
                        self@,
                        row as int,
                    ));
                }
            }
            row = row + 1;
        }
        proof {
            assert(s@ + spec_rows_chars(self@, 8) =~= s@);
        }
        s
    }
}

/// The characters of `v` in the opposite order.
fn reverse_chars(v: &Vec<char>) -> (r: Vec<char>)
    ensures
        r@ == v@.reverse(),
{
    let n = v.len();
    let mut r: Vec<char> = Vec::new();
    let mut i: usize = 0;
    while i < n
        invariant
            i <= n,
            n == v@.len(),
            r@.len() == i,
            forall|j: int| 0 <= j < i ==> r@[j] == v@[n - 1 - j],
        decreases n - i,
    {
        r.push(v[n - 1 - i]);
        i = i + 1;
    }
    proof {
        assert(r@ =~= v@.reverse());
    }
    r
}

/// The index of the first blank of `v`, or its length if there is none.
fn first_space_index(v: &Vec<char>) -> (k: usize)
    ensures
        k == spec_first_space(v@),
        k <= v@.len(),
{
    let n = v.len();
    let mut i: usize = 0;
    proof {
        assert(v@.skip(0) =~= v@);
    }
    while i < n
        invariant
            i <= n,
            n == v@.len(),
            spec_first_space(v@.skip(i as int)) + i == spec_first_space(v@),
        decreases n - i,
    {
        proof {
            assert(v@.skip(i as int).len() == n - i);
            assert(v@.skip(i as int)[0] == v@[i as int]);
            assert(v@.skip(i as int).drop_first() =~= v@.skip(i + 1));
        }
        if v[i] == ' ' {
            return i;
        }
        i = i + 1;
    }
    proof {
        assert(v@.skip(n as int) =~= Seq::<char>::empty());
    }
    n
}

/// The first `k` characters of `v`.
fn take_prefix(v: &Vec<char>, k: usize) -> (r: Vec<char>)
    requires
        k <= v@.len(),
    ensures
        r@ == v@.take(k as int),
{
    let mut r: Vec<char> = Vec::new();
    let mut i: usize = 0;
    while i < k
        invariant
            i <= k,
            k <= v@.len(),
            r@.len() == i,
            forall|j: int| 0 <= j < i ==> r@[j] == v@[j],
        decreases k - i,
    {
        r.push(v[i]);
        i = i + 1;
    }
    proof {
        assert(r@ =~= v@.take(k as int));
    }
    r
}

/// Parses the grid a position string describes under a perspective: as it
/// stands from White's side, with the board field reversed as a whole from
/// Black's side. Whatever metadata follows the board field is not read.
pub fn parse_position(s: &str, reversed: bool) -> (r: Result<BoardGrid, RenderError>)
    ensures
        r matches Ok(g) ==> g.wf() && spec_grid_of_fen(s@, reversed) == Some(g@),
        r is Err ==> spec_grid_of_fen(s@, reversed) is None,
        r matches Err(e) ==> e == RenderError::MalformedPosition,
{
    let chars = str_chars(s);
    if reversed {
        let k = first_space_index(&chars);
        let field = take_prefix(&chars, k);
        let rev = reverse_chars(&field);
        parse_chars(&rev)
    } else {
        parse_chars(&chars)
    }
}


/// The point reflection of a grid: cell i of the reflection is cell 63 - i
/// of the original, so (file, rank) goes to (7 - file, 7 - rank).
pub open spec fn spec_reflected(g: Seq<Option<Piece>>) -> Seq<Option<Piece>> {
    Seq::new(64, |i: int| g[63 - i])
}

/// Reflection preserves well-formedness.
proof fn lemma_reflected_wf(g: Seq<Option<Piece>>)
    requires
        grid_wf(g),
    ensures
        grid_wf(spec_reflected(g)),
{
    let gr = spec_reflected(g);
    assert forall|i: int| 0 <= i < 64 implies (#[trigger] gr[i] matches Some(p)
        ==> spec_placeable(p)) by {
        assert(gr[i] == g[63 - i]);
    }
}

/// How many consecutive empty files start at `col` in row `row`.
spec fn nones_from(g: Seq<Option<Piece>>, row: int, col: int) -> int
    decreases 8 - col,
{
    if col < 0 || col >= 8 {
        0
    } else if g[row * 8 + col] is None {
        1 + nones_from(g, row, col + 1)
    } else {
        0
    }
}

/// The run starting at `col` consists of empty files and ends at a piece or
/// at the end of the row.
proof fn lemma_nones_from(g: Seq<Option<Piece>>, row: int, col: int)
    requires
        0 <= col <= 8,
    ensures
        0 <= nones_from(g, row, col) <= 8 - col,
        forall|i: int|
            row * 8 + col <= i < row * 8 + col + nones_from(g, row, col) ==> (#[trigger] g[i])
                is None,
        col + nones_from(g, row, col) == 8 || g[row * 8 + col + nones_from(g, row, col)] is Some,
    decreases 8 - col,
{
    if col < 8 && g[row * 8 + col] is None {
        lemma_nones_from(g, row, col + 1);
    }
}

/// Writing a rank from `col` with pending run `run` is the same as writing
/// it from past `j` further empty files with the run grown by `j`.
proof fn lemma_run_absorb(g: Seq<Option<Piece>>, row: int, col: int, run: int, j: int)
    requires
        0 <= col,
        col + j <= 8,
        0 <= run,
        0 <= j,
        forall|i: int| row * 8 + col <= i < row * 8 + col + j ==> (#[trigger] g[i]) is None,
    ensures
        spec_rank_chars(g, row, col, run) == spec_rank_chars(g, row, col + j, run + j),
    decreases j,
{
    if j > 0 {
        assert(g[row * 8 + col] is None);
        lemma_run_absorb(g, row, col + 1, run + 1, j - 1);
    }
}

/// At the end of a run — before a piece or at the end of the row — the
/// pending run flushes as one digit token in front of the rest.
proof fn lemma_run_flush(g: Seq<Option<Piece>>, row: int, col: int, run: int)
    requires
        0 <= col <= 8,
        1 <= run <= 8,
        col == 8 || g[row * 8 + col] is Some,
    ensures
        spec_rank_chars(g, row, col, run) == seq![digit_char(run)] + spec_rank_chars(
            g,
            row,
            col,
            0,
        ),
{
    if col >= 8 {
        assert(spec_rank_chars(g, row, col, run) =~= seq![digit_char(run)] + spec_rank_chars(
            g,
            row,
            col,
            0,
        ));
    } else {
        assert(spec_rank_chars(g, row, col, run) =~= seq![digit_char(run)] + spec_rank_chars(
            g,
            row,
            col,
            0,
        ));
    }
}

/// Stepping token by token from a token boundary: the reflected row written
/// from its start equals the reverse of this row's remainder followed by the
/// reflected row's own remainder.
proof fn lemma_rank_reverse_from(g: Seq<Option<Piece>>, gr: Seq<Option<Piece>>, row: int, col: int)
    requires
        g.len() == 64,
        gr == spec_reflected(g),
        0 <= row < 8,
        0 <= col <= 8,
        col == 8 || g[row * 8 + col] is Some || col == 0 || g[row * 8 + (col - 1)] is Some,
    ensures
        spec_rank_chars(gr, 7 - row, 0, 0) == spec_rank_chars(g, row, col, 0).reverse()
            + spec_rank_chars(gr, 7 - row, 8 - col, 0),
    decreases 8 - col,
{
    let r2 = 7 - row;
    if col == 8 {
        assert(spec_rank_chars(g, row, 8, 0) =~= Seq::<char>::empty());
        assert(spec_rank_chars(g, row, 8, 0).reverse() =~= Seq::<char>::empty());
        assert(spec_rank_chars(g, row, col, 0).reverse() + spec_rank_chars(gr, r2, 0, 0)
            =~= spec_rank_chars(gr, r2, 0, 0));
    } else {
        assert(gr[r2 * 8 + (7 - col)] == g[row * 8 + col]);
        match g[row * 8 + col] {
            Option::Some(p) => {
                let pc = crate::piece::spec_char_of_piece(p);
                lemma_rank_reverse_from(g, gr, row, col + 1);
                assert(spec_rank_chars(g, row, col, 0) =~= seq![pc] + spec_rank_chars(
                    g,
                    row,
                    col + 1,
                    0,
                ));
                assert(spec_rank_chars(g, row, col, 0).reverse() =~= spec_rank_chars(
                    g,
                    row,
                    col + 1,
                    0,
                ).reverse() + seq![pc]);
                assert(spec_rank_chars(gr, r2, 7 - col, 0) =~= seq![pc] + spec_rank_chars(
                    gr,
                    r2,
                    8 - col,
                    0,
                ));
                assert(spec_rank_chars(g, row, col, 0).reverse() + spec_rank_chars(
                    gr,
                    r2,
                    8 - col,
                    0,
                ) =~= spec_rank_chars(g, row, col + 1, 0).reverse() + spec_rank_chars(
                    gr,
                    r2,
                    7 - col,
                    0,
                ));
            },
            Option::None => {
                lemma_nones_from(g, row, col);
                let k = nones_from(g, row, col);
                assert(k >= 1);
                lemma_run_absorb(g, row, col, 0, k);
                lemma_run_flush(g, row, col + k, k);
                lemma_rank_reverse_from(g, gr, row, col + k);
                assert forall|i: int|
                    r2 * 8 + (8 - col - k) <= i < r2 * 8 + (8 - col) implies (#[trigger] gr[i])
                    is None by {
                    assert(gr[i] == g[63 - i]);
                    assert(row * 8 + col <= 63 - i < row * 8 + col + k);
                }
                lemma_run_absorb(gr, r2, 8 - col - k, 0, k);
                if col == 0 {
                    assert(8 - col == 8);
                } else {
                    assert(gr[r2 * 8 + (8 - col)] == g[row * 8 + (col - 1)]);
                }
                lemma_run_flush(gr, r2, 8 - col, k);
                assert(spec_rank_chars(g, row, col, 0) == seq![digit_char(k)] + spec_rank_chars(
                    g,
                    row,
                    col + k,
                    0,
                ));
                assert(spec_rank_chars(g, row, col, 0).reverse() =~= spec_rank_chars(
                    g,
                    row,
                    col + k,
                    0,
                ).reverse() + seq![digit_char(k)]);
                assert(spec_rank_chars(gr, r2, 8 - col - k, 0) == seq![digit_char(k)]
                    + spec_rank_chars(gr, r2, 8 - col, 0));
                assert(spec_rank_chars(g, row, col, 0).reverse() + spec_rank_chars(
                    gr,
                    r2,
                    8 - col,
                    0,
                ) =~= spec_rank_chars(g, row, col + k, 0).reverse() + spec_rank_chars(
                    gr,
                    r2,
                    8 - col - k,
                    0,
                ));
            },
        }
    }
}

/// The reflected row, written whole, is the reverse of the original row,
/// written whole.
proof fn lemma_rank_reverse(g: Seq<Option<Piece>>, gr: Seq<Option<Piece>>, row: int)
    requires
        g.len() == 64,
        gr == spec_reflected(g),
        0 <= row < 8,
    ensures
        spec_rank_chars(gr, 7 - row, 0, 0) == spec_rank_chars(g, row, 0, 0).reverse(),
{
    lemma_rank_reverse_from(g, gr, row, 0);
    assert(spec_rank_chars(gr, 7 - row, 8, 0) =~= Seq::<char>::empty());
    assert(spec_rank_chars(g, row, 0, 0).reverse() + spec_rank_chars(gr, 7 - row, 8, 0)
        =~= spec_rank_chars(g, row, 0, 0).reverse());
}

/// Rank after rank from the bottom: the reflected grid written from its
/// first rank is the reverse of the original's last `k + 1` ranks, followed
/// by the rest of the reflected grid.
proof fn lemma_rows_reverse(g: Seq<Option<Piece>>, gr: Seq<Option<Piece>>, k: int)
    requires
        g.len() == 64,
        gr == spec_reflected(g),
        0 <= k <= 7,
    ensures
        spec_rows_chars(gr, 0) == spec_rows_chars(g, 7 - k).reverse() + (if k < 7 {
            seq!['/'] + spec_rows_chars(gr, k + 1)
        } else {
            Seq::<char>::empty()
        }),
    decreases k,
{
    if k == 0 {
        lemma_rank_reverse(g, gr, 7);
        assert(spec_rows_chars(gr, 0) =~= spec_rank_chars(g, 7, 0, 0).reverse() + (seq!['/']
            + spec_rows_chars(gr, 1)));
    } else {
        lemma_rows_reverse(g, gr, k - 1);
        lemma_rank_reverse(g, gr, 7 - k);
        assert(spec_rows_chars(g, 7 - k) == spec_rank_chars(g, 7 - k, 0, 0) + seq!['/']
            + spec_rows_chars(g, 8 - k));
        assert(spec_rows_chars(g, 7 - k).reverse() =~= spec_rows_chars(g, 8 - k).reverse() + seq![
            '/',
        ] + spec_rank_chars(g, 7 - k, 0, 0).reverse());
        if k < 7 {
            assert(spec_rows_chars(gr, k) == spec_rank_chars(gr, k, 0, 0) + seq!['/']
                + spec_rows_chars(gr, k + 1));
            assert(spec_rows_chars(g, 7 - k).reverse() + (seq!['/'] + spec_rows_chars(gr, k + 1))
                =~= spec_rows_chars(g, 8 - k).reverse() + (seq!['/'] + spec_rows_chars(gr, k)));
        } else {
            assert(spec_rows_chars(gr, 7) == spec_rank_chars(gr, 7, 0, 0));
            assert(spec_rows_chars(g, 0).reverse() + Seq::<char>::empty() =~= spec_rows_chars(
                g,
                1,
            ).reverse() + (seq!['/'] + spec_rows_chars(gr, 7)));
        }
    }
}

/// Reversing the written board field of a grid writes exactly the point
/// reflection of that grid.
proof fn lemma_reversed_chars_reflect(g: Seq<Option<Piece>>)
    requires
        g.len() == 64,
    ensures
        spec_grid_chars(g).reverse() == spec_grid_chars(spec_reflected(g)),
{
    let gr = spec_reflected(g);
    lemma_rows_reverse(g, gr, 7);
    assert(spec_rows_chars(g, 0).reverse() + Seq::<char>::empty() =~= spec_rows_chars(
        g,
        0,
    ).reverse());
}

/// Perspective symmetry of grid reconstruction: for every well-formed grid,
/// parsing its written board field as it stands yields the grid back, and
/// parsing the reversed field — which is how a position is read from
/// Black's side — yields exactly its point reflection.
proof fn lemma_perspective_reflection(g: Seq<Option<Piece>>)
    requires
        grid_wf(g),
    ensures
        spec_parse(spec_grid_chars(g)) == Some(g),
        spec_parse(spec_grid_chars(g).reverse()) == Some(spec_reflected(g)),
{
    lemma_grid_round_trip(g);
    lemma_reflected_wf(g);
    lemma_reversed_chars_reflect(g);
    lemma_grid_round_trip(spec_reflected(g));
}


/// No character of a written rank is a blank.
proof fn lemma_rank_chars_no_space(g: Seq<Option<Piece>>, row: int, col: int, run: int)
    requires
        grid_wf(g),
        0 <= row < 8,
        0 <= col,
    ensures
        forall|t: int|
            0 <= t < spec_rank_chars(g, row, col, run).len() ==> #[trigger] spec_rank_chars(
                g,
                row,
                col,
                run,
            )[t] != ' ',
    decreases 8 - col,
{
    if col >= 8 {
        let whole = spec_rank_chars(g, row, col, run);
        assert forall|t: int| 0 <= t < whole.len() implies #[trigger] whole[t] != ' ' by {
            assert(whole[t] == digit_char(run));
        }
    } else {
        match g[row * 8 + col] {
            Option::None => {
                lemma_rank_chars_no_space(g, row, col + 1, run + 1);
                let whole = spec_rank_chars(g, row, col, run);
                assert forall|t: int| 0 <= t < whole.len() implies #[trigger] whole[t] != ' ' by {
                    assert(whole[t] == spec_rank_chars(g, row, col + 1, run + 1)[t]);
                }
            },
            Option::Some(p) => {
                lemma_rank_chars_no_space(g, row, col + 1, 0);
                let prefix: Seq<char> = if run > 0 {
                    seq![digit_char(run)]
                } else {
                    seq![]
                };
                let pc = crate::piece::spec_char_of_piece(p);
                let whole = spec_rank_chars(g, row, col, run);
                assert forall|t: int| 0 <= t < whole.len() implies #[trigger] whole[t] != ' ' by {
                    if t < prefix.len() {
                        assert(whole[t] == digit_char(run));
                    } else if t == prefix.len() {
                        assert(whole[t] == pc);
                        assert(spec_placeable(p));
                        lemma_piece_char_tokens(p);
                    } else {
                        assert(whole[t] == spec_rank_chars(g, row, col + 1, 0)[t - prefix.len()
                            - 1]);
                    }
                }
            },
        }
    }
}

/// No character of the written board field is a blank.
proof fn lemma_rows_chars_no_space(g: Seq<Option<Piece>>, row: int)
    requires
        grid_wf(g),
        0 <= row,
    ensures
        forall|t: int|
            0 <= t < spec_rows_chars(g, row).len() ==> #[trigger] spec_rows_chars(g, row)[t]
                != ' ',
    decreases 8 - row,
{
    if row >= 8 {
    } else if row == 7 {
        lemma_rank_chars_no_space(g, 7, 0, 0);
    } else {
        lemma_rank_chars_no_space(g, row, 0, 0);
        lemma_rows_chars_no_space(g, row + 1);
        let rank = spec_rank_chars(g, row, 0, 0);
        let whole = spec_rows_chars(g, row);
        assert forall|t: int| 0 <= t < whole.len() implies #[trigger] whole[t] != ' ' by {
            if t < rank.len() {
                assert(whole[t] == rank[t]);
            } else if t == rank.len() {
                assert(whole[t] == '/');
            } else {
                assert(whole[t] == spec_rows_chars(g, row + 1)[t - rank.len() - 1]);
            }
        }
    }
}

/// A string without a blank is its own board field.
proof fn lemma_board_field_whole(s: Seq<char>)
    requires
        forall|t: int| 0 <= t < s.len() ==> #[trigger] s[t] != ' ',
    ensures
        spec_first_space(s) == s.len(),
        spec_board_field(s) == s,
    decreases s.len(),
{
    if s.len() == 0 {
        assert(spec_board_field(s) =~= s);
    } else {
        assert(s[0] != ' ');
        let rest = s.drop_first();
        assert forall|t: int| 0 <= t < rest.len() implies #[trigger] rest[t] != ' ' by {
            assert(rest[t] == s[t + 1]);
        }
        lemma_board_field_whole(rest);
        assert(spec_first_space(s) == 1 + spec_first_space(rest));
        assert(s.take(s.len() as int) =~= s);
    }
}

/// Perspective symmetry end to end: reading the written board field of any
/// well-formed grid from White's side reproduces the grid, and reading the
/// same field from Black's side produces exactly its point reflection —
/// cell (file, rank) on one side is cell (7 - file, 7 - rank) on the other,
/// with matching piece colors and kinds.
pub proof fn lemma_perspective_symmetry(g: Seq<Option<Piece>>)
    requires
        grid_wf(g),
    ensures
        spec_grid_of_fen(spec_grid_chars(g), false) == Some(g),
        spec_grid_of_fen(spec_grid_chars(g), true) == Some(spec_reflected(g)),
{
    lemma_perspective_reflection(g);
    lemma_rows_chars_no_space(g, 0);
    lemma_board_field_whole(spec_grid_chars(g));
}

} // verus!
