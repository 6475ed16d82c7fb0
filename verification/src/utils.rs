//! Coordinates, the state transition and the win detector.

use crate::quarto::game_model::board_cells;
use crate::quarto::quarto_game_state::{QuartoGameState, EMPTY_CELL, NO_PIECE, NUM_PIECES};
use vstd::prelude::*;

verus! {

/// The character of a decimal digit.
pub open spec fn digit_char(digit: nat) -> char {
    if digit == 0 {
        '0'
    } else if digit == 1 {
        '1'
    } else if digit == 2 {
        '2'
    } else if digit == 3 {
        '3'
    } else if digit == 4 {
        '4'
    } else if digit == 5 {
        '5'
    } else if digit == 6 {
        '6'
    } else if digit == 7 {
        '7'
    } else if digit == 8 {
        '8'
    } else {
        '9'
    }
}

/// A number in decimal notation, without leading zeros.
pub open spec fn decimal_digits(n: nat) -> Seq<char>
    decreases n,
{
    if n < 10 {
        seq![digit_char(n)]
    } else {
        decimal_digits(n / 10).push(digit_char(n % 10))
    }
}

fn digit_text(digit: u8) -> (text: &'static str)
    requires
        digit < 10,
    ensures
        text@ == seq![digit_char(digit as nat)],
{
    proof {
        reveal_strlit("0");
        reveal_strlit("1");
        reveal_strlit("2");
        reveal_strlit("3");
        reveal_strlit("4");
        reveal_strlit("5");
        reveal_strlit("6");
        reveal_strlit("7");
        reveal_strlit("8");
        reveal_strlit("9");
    }
    let text = if digit == 0 {
        "0"
    } else if digit == 1 {
        "1"
    } else if digit == 2 {
        "2"
    } else if digit == 3 {
        "3"
    } else if digit == 4 {
        "4"
    } else if digit == 5 {
        "5"
    } else if digit == 6 {
        "6"
    } else if digit == 7 {
        "7"
    } else if digit == 8 {
        "8"
    } else {
        "9"
    };
    assert(text@ =~= seq![digit_char(digit as nat)]);
    text
}

/// Writes a number in decimal notation.
pub fn decimal_text(n: u128) -> (text: String)
    ensures
        text@ == decimal_digits(n as nat),
    decreases n,
{
    if n < 10 {
        String::from_str(digit_text(n as u8))
    } else {
        let mut text = decimal_text(n / 10);
        text.append(digit_text((n % 10) as u8));
        assert(text@ =~= decimal_digits(n as nat));
        text
    }
}

/// Writes a cell index or a piece code with at least two digits.
pub fn convert_move_to_str(game_move: u8) -> (text: String)
    ensures
        text@ == if game_move <= 9 {
            seq!['0', digit_char(game_move as nat)]
        } else {
            decimal_digits(game_move as nat)
        },
{
    if game_move <= 9 {
        let mut str_move = String::from_str("0");
        str_move.append(digit_text(game_move));
        proof {
            reveal_strlit("0");
            assert(str_move@ =~= seq!['0', digit_char(game_move as nat)]);
        }
        str_move
    } else {
        decimal_text(game_move as u128)
    }
}

/// Row and column of a cell given by its linear index.
pub fn get_2d_coords(index: u8) -> (coords: (u8, u8))
    ensures
        coords.0 == index / 4,
        coords.1 == index % 4,
{
    (index / 4, index % 4)
}

/// Linear index of the cell in row `row` and column `col`.
pub fn get_linear_coords(row: u8, col: u8) -> (index: u8)
    requires
        4 * row + col <= u8::MAX,
    ensures
        index == 4 * row + col,
{
    4 * row + col
}

/// The two coordinate functions are inverse to each other: cells and
/// (row, column) pairs with a column below four correspond one to one.
pub proof fn coords_round_trip(index: u8, row: u8, col: u8)
    ensures
        4 * (index / 4) + index % 4 == index,
        col < 4 && 4 * row + col <= u8::MAX ==> (4 * row + col) / 4 == row && (4 * row + col) % 4
            == col,
{
}

/// Whether the attribute numbered `bit` is set in a piece code.
pub open spec fn has_attribute(code: u8, bit: u8) -> bool {
    code & (1u8 << bit) != 0
}

/// Whether every code has the attribute `bit`.
pub open spec fn all_set(codes: Seq<u8>, bit: u8) -> bool {
    forall|i: int| 0 <= i < codes.len() ==> has_attribute(#[trigger] codes[i], bit)
}

/// Whether no code has the attribute `bit`.
pub open spec fn all_unset(codes: Seq<u8>, bit: u8) -> bool {
    forall|i: int| 0 <= i < codes.len() ==> !has_attribute(#[trigger] codes[i], bit)
}

/// Whether the codes agree on the attribute `bit`.
pub open spec fn agree_on(codes: Seq<u8>, bit: u8) -> bool {
    all_set(codes, bit) || all_unset(codes, bit)
}

/// The matching property: the codes agree on at least one of the four
/// attributes.
pub open spec fn shares_attribute(codes: Seq<u8>) -> bool {
    exists|bit: u8| bit < 4 && #[trigger] agree_on(codes, bit)
}

/// The matching property does not depend on the order of the codes: two
/// lines that hold the same codes, each as often as the other, match or fail
/// to match together.
pub proof fn matching_is_order_independent(line: Seq<u8>, permuted: Seq<u8>)
    requires
        line.to_multiset() == permuted.to_multiset(),
    ensures
        shares_attribute(line) == shares_attribute(permuted),
{
    lemma_agreement_follows_members(line, permuted);
    lemma_agreement_follows_members(permuted, line);
}

proof fn lemma_agreement_follows_members(line: Seq<u8>, other: Seq<u8>)
    requires
        line.to_multiset() == other.to_multiset(),
    ensures
        shares_attribute(line) ==> shares_attribute(other),
{
    if shares_attribute(line) {
        let bit = choose|bit: u8| bit < 4 && #[trigger] agree_on(line, bit);
        assert forall|j: int| 0 <= j < other.len() implies exists|i: int|
            0 <= i < line.len() && line[i] == #[trigger] other[j] by {
            vstd::seq_lib::to_multiset_contains(other, other[j]);
            vstd::seq_lib::to_multiset_contains(line, other[j]);
            assert(other.contains(other[j]));
            assert(line.contains(other[j]));
        }
        if all_set(line, bit) {
            assert forall|j: int| 0 <= j < other.len() implies has_attribute(
                #[trigger] other[j],
                bit,
            ) by {
                let i = choose|i: int| 0 <= i < line.len() && line[i] == other[j];
                assert(has_attribute(line[i], bit));
            }
        } else {
            assert forall|j: int| 0 <= j < other.len() implies !has_attribute(
                #[trigger] other[j],
                bit,
            ) by {
                let i = choose|i: int| 0 <= i < line.len() && line[i] == other[j];
                assert(!has_attribute(line[i], bit));
            }
        }
        assert(agree_on(other, bit));
    }
}

proof fn lemma_and_keeps_common_bits(acc: u8, code: u8, bit: u8)
    by (bit_vector)
    requires
        bit < 4,
    ensures
        ((acc & code) & (1u8 << bit) != 0) == ((acc & (1u8 << bit) != 0) && (code & (1u8 << bit)
            != 0)),
        ((acc & (!code & 15)) & (1u8 << bit) != 0) == ((acc & (1u8 << bit) != 0) && !(code & (1u8
            << bit) != 0)),
        15u8 & (1u8 << bit) != 0,
{
}

proof fn lemma_nonzero_has_a_bit(x: u8, y: u8)
    by (bit_vector)
    requires
        x & 15 == x,
        y & 15 == y,
    ensures
        (x | y) > 0 <==> (x & (1u8 << 0u8) != 0 || x & (1u8 << 1u8) != 0 || x & (1u8 << 2u8) != 0
            || x & (1u8 << 3u8) != 0 || y & (1u8 << 0u8) != 0 || y & (1u8 << 1u8) != 0 || y & (1u8
            << 2u8) != 0 || y & (1u8 << 3u8) != 0),
{
}

proof fn lemma_low_nibble(acc: u8, code: u8)
    by (bit_vector)
    requires
        acc & 15 == acc,
    ensures
        (acc & code) & 15 == acc & code,
        (acc & (!code & 15)) & 15 == acc & (!code & 15),
{
}

/// The matching test on any number of codes: the conjunction of the codes
/// and the conjunction of their complements, each on the low four bits.
pub fn matching_property_among(codes: &[u8]) -> (found: bool)
    ensures
        found == shares_attribute(codes@),
{
    let mut bitwise_and: u8 = 15;
    let mut bitwise_not: u8 = 15;
    let mut i: usize = 0;
    proof {
        assert(15u8 & 15 == 15u8) by (bit_vector);
        assert forall|bit: u8| bit < 4 implies has_attribute(15u8, bit) by {
            lemma_and_keeps_common_bits(0, 0, bit);
        }
    }
    while i < codes.len()
        invariant
            i <= codes.len(),
            bitwise_and & 15 == bitwise_and,
            bitwise_not & 15 == bitwise_not,
            forall|bit: u8|
                bit < 4 ==> (has_attribute(bitwise_and, bit) <==> #[trigger] all_set(
                    codes@.take(i as int),
                    bit,
                )),
            forall|bit: u8|
                bit < 4 ==> (has_attribute(bitwise_not, bit) <==> #[trigger] all_unset(
                    codes@.take(i as int),
                    bit,
                )),
        decreases codes.len() - i,
    {
        let code = codes[i];
        proof {
            lemma_low_nibble(bitwise_and, code);
            lemma_low_nibble(bitwise_not, code);
            let before = codes@.take(i as int);
            let after = codes@.take(i + 1);
            assert(after =~= before.push(code));
            assert forall|bit: u8| bit < 4 implies (has_attribute(bitwise_and & code, bit)
                <==> #[trigger] all_set(after, bit)) by {
                lemma_and_keeps_common_bits(bitwise_and, code, bit);
                if all_set(after, bit) {
                    assert forall|j: int| 0 <= j < before.len() implies has_attribute(
                        #[trigger] before[j],
                        bit,
                    ) by {
                        assert(before[j] == after[j]);
                    }
                    assert(after[i as int] == code);
                }
                if all_set(before, bit) && has_attribute(code, bit) {
                    assert forall|j: int| 0 <= j < after.len() implies has_attribute(
                        #[trigger] after[j],
                        bit,
                    ) by {
                        if j < i {
                            assert(before[j] == after[j]);
                        }
                    }
                }
            }
            assert forall|bit: u8| bit < 4 implies (has_attribute(
                bitwise_not & (!code & 15),
                bit,
            ) <==> #[trigger] all_unset(after, bit)) by {
                lemma_and_keeps_common_bits(bitwise_not, code, bit);
                if all_unset(after, bit) {
                    assert forall|j: int| 0 <= j < before.len() implies !has_attribute(
                        #[trigger] before[j],
                        bit,
                    ) by {
                        assert(before[j] == after[j]);
                    }
                    assert(after[i as int] == code);
                }
                if all_unset(before, bit) && !has_attribute(code, bit) {
                    assert forall|j: int| 0 <= j < after.len() implies !has_attribute(
                        #[trigger] after[j],
                        bit,
                    ) by {
                        if j < i {
                            assert(before[j] == after[j]);
                        }
                    }
                }
            }
        }
        bitwise_and = bitwise_and & code;
        bitwise_not = bitwise_not & (!code & 15);
        i += 1;
    }
    proof {
        assert(codes@.take(i as int) =~= codes@);
        lemma_nonzero_has_a_bit(bitwise_and, bitwise_not);
        if (bitwise_and | bitwise_not) > 0 {
            let bit: u8 = if has_attribute(bitwise_and, 0) || has_attribute(bitwise_not, 0) {
                0
            } else if has_attribute(bitwise_and, 1) || has_attribute(bitwise_not, 1) {
                1
            } else if has_attribute(bitwise_and, 2) || has_attribute(bitwise_not, 2) {
                2
            } else {
                3
            };
            assert(agree_on(codes@, bit));
        }
        if shares_attribute(codes@) {
            let bit = choose|bit: u8| bit < 4 && #[trigger] agree_on(codes@, bit);
            assert(has_attribute(bitwise_and, bit) || has_attribute(bitwise_not, bit));
            assert(bit == 0 || bit == 1 || bit == 2 || bit == 3);
        }
    }
    let result = bitwise_and | bitwise_not;
    result > 0
}

/// Whether the four codes of a line share an attribute, set in all of them
/// or unset in all of them.
pub fn matching_property_exists(line: &[u8; 4]) -> (found: bool)
    ensures
        found == shares_attribute(line@),
{
    matching_property_among(line.as_slice())
}

/// Number of lines on the board: four rows, four columns, two diagonals.
pub const NUM_LINES: usize = 10;

/// The cell at place `i` of line `k`. Lines 0 to 3 are the rows, lines 4 to 7
/// the columns, line 8 runs from cell 0 to cell 15 and line 9 from cell 3 to
/// cell 12.
pub open spec fn line_cell(k: int, i: int) -> int {
    if k < 4 {
        4 * k + i
    } else if k < 8 {
        4 * i + (k - 4)
    } else if k == 8 {
        5 * i
    } else {
        3 * i + 3
    }
}

/// The four values that line `k` holds.
pub open spec fn line_codes(cells: Seq<u8>, k: int) -> Seq<u8> {
    Seq::new(4, |i: int| cells[line_cell(k, i)])
}

/// The pieces among some cell values, in their order.
pub open spec fn occupied(codes: Seq<u8>) -> Seq<u8> {
    codes.filter(|c: u8| c != EMPTY_CELL)
}

/// Line `k` wins: it holds four pieces, and they share an attribute.
pub open spec fn line_wins(cells: Seq<u8>, k: int) -> bool {
    !line_codes(cells, k).contains(EMPTY_CELL) && shares_attribute(line_codes(cells, k))
}

/// The game is won: one of the ten lines wins.
pub open spec fn is_terminal(cells: Seq<u8>) -> bool {
    exists|k: int| 0 <= k < NUM_LINES && #[trigger] line_wins(cells, k)
}

/// A line that holds an empty cell does not count towards a win, whatever
/// its other three cells hold: the board is won only through lines that are
/// full.
pub proof fn line_with_empty_cell_never_wins(cells: Seq<u8>, k: int)
    requires
        line_codes(cells, k).contains(EMPTY_CELL),
    ensures
        !line_wins(cells, k),
        is_terminal(cells) ==> exists|j: int|
            0 <= j < NUM_LINES && j != k && #[trigger] line_wins(cells, j),
{
    if is_terminal(cells) {
        let j = choose|j: int| 0 <= j < NUM_LINES && #[trigger] line_wins(cells, j);
        assert(j != k);
    }
}

/// The values of line `k`, read off the board.
pub fn line_of(board: &[[u8; 4]; 4], k: usize) -> (line: [u8; 4])
    requires
        k < NUM_LINES,
    ensures
        line@ == line_codes(board_cells(*board), k as int),
{
    let line = if k < 4 {
        [board[k][0], board[k][1], board[k][2], board[k][3]]
    } else if k < 8 {
        [board[0][k - 4], board[1][k - 4], board[2][k - 4], board[3][k - 4]]
    } else if k == 8 {
        [board[0][0], board[1][1], board[2][2], board[3][3]]
    } else {
        [board[0][3], board[1][2], board[2][1], board[3][0]]
    };
    assert(line@ =~= line_codes(board_cells(*board), k as int));
    line
}

/// Whether a line holds an empty cell.
pub fn line_has_empty_space(line: &[u8; 4]) -> (found: bool)
    ensures
        found == line@.contains(EMPTY_CELL),
{
    let found = line[0] == EMPTY_CELL || line[1] == EMPTY_CELL || line[2] == EMPTY_CELL || line[3]
        == EMPTY_CELL;
    proof {
        if found {
            let i: int = if line[0] == EMPTY_CELL {
                0
            } else if line[1] == EMPTY_CELL {
                1
            } else if line[2] == EMPTY_CELL {
                2
            } else {
                3
            };
            assert(line@[i] == EMPTY_CELL);
        }
    }
    found
}

/// Whether the board is won: some row, column or diagonal is full and its
/// four pieces share an attribute.
pub fn is_game_over(board: &[[u8; 4]; 4]) -> (over: bool)
    ensures
        over == is_terminal(board_cells(*board)),
{
    let mut k: usize = 0;
    while k < NUM_LINES
        invariant
            k <= NUM_LINES,
            forall|j: int| 0 <= j < k ==> !#[trigger] line_wins(board_cells(*board), j),
        decreases NUM_LINES - k,
    {
        let line = line_of(board, k);
        if !line_has_empty_space(&line) && matching_property_exists(&line) {
            assert(line_wins(board_cells(*board), k as int));
            return true;
        }
        k += 1;
    }
    false
}

/// Plays a move on `current_state`: the pending piece goes to `position`,
/// the cell stops being free, `next_piece` becomes the pending piece and
/// stops being free. A legal move on a state in play keeps the state
/// well-formed, takes exactly one cell and at most one piece out of what is
/// free, and puts exactly one more piece on the board.
pub fn update_state(current_state: &mut QuartoGameState, position: u8, next_piece: u8)
    requires
        position < NUM_PIECES,
    ensures
        final(current_state)@ == old(current_state)@.apply(position, next_piece),
        old(current_state)@.in_play() && old(current_state)@.legal(position, next_piece) ==> {
            &&& final(current_state)@.wf()
            &&& final(current_state)@.positions.len() == old(current_state)@.positions.len() - 1
            &&& final(current_state)@.pieces.len() == old(current_state)@.pieces.len() - (if next_piece
                == NO_PIECE {
                0int
            } else {
                1int
            })
            &&& final(current_state)@.placed_count() == old(current_state)@.placed_count() + 1
        },
{
    broadcast use vstd::std_specs::hash::group_hash_axioms;

    let (row, col) = get_2d_coords(position);
    current_state.board[row as usize][col as usize] = current_state.current_piece;
    current_state.available_positions.remove(&position);

    current_state.current_piece = next_piece;
    current_state.available_pieces.remove(&next_piece);
    proof {
        assert(final(current_state)@.board =~= old(current_state)@.apply(position, next_piece).board);
        if old(current_state)@.in_play() && old(current_state)@.legal(position, next_piece) {
            old(current_state)@.apply_legal(position, next_piece);
        }
    }
}

} // verus!
