//! Properties of the game's rules over all states, proved from the
//! definitions that the operations' contracts use.
use vstd::prelude::*;

use crate::game::{
    inside, is_refused, lemma_contains_prepend, lemma_free_cells_complete, lemma_free_cells_members,
    on_grid, opposite, turned, Direction, GameView, Position,
};
use crate::random::{lemma_range_value_bounds, range_value};

verus! {

/// Column 0 and row 0 are never inside, whatever the size of the board; the
/// bottom-right cell is inside on every board at least 2 by 2.
pub proof fn lemma_interior_edges(width: usize, height: usize)
    ensures
        forall|y: int| !inside(width as int, height as int, 0, y),
        forall|x: int| !inside(width as int, height as int, x, 0),
        width >= 2 && height >= 2 ==> inside(width as int, height as int, width - 1, height - 1),
{
}

/// Asking for the current heading leaves it as it is.
pub proof fn lemma_repeat_is_ignored(d: Direction)
    ensures
        turned(d, d) == d,
{
}

/// Asking to reverse is ignored.
pub proof fn lemma_reversal_is_ignored(d: Direction)
    ensures
        is_refused(d, opposite(d)),
        turned(d, opposite(d)) == d,
{
}

/// A quarter turn is taken at once.
pub proof fn lemma_quarter_turn_is_taken(d: Direction, r: Direction)
    requires
        r != d,
        r != opposite(d),
    ensures
        turned(d, r) == r,
{
}

/// A legal move onto the food, with a cell left for new food, grows the
/// snake by one cell, keeps the game going, and puts the food on a cell of
/// the grid off the grown snake. A legal move elsewhere keeps the length.
pub proof fn lemma_growth(g: GameView)
    requires
        g.wf(),
        !g.game_over,
        !g.collides(),
    ensures
        g.target_cell() == g.food && g.free().len() > 0 ==> {
            let n = g.ticked();
            &&& n.snake.len() == g.snake.len() + 1
            &&& !n.game_over
            &&& n.food.0 < g.width && n.food.1 < g.height
            &&& !n.snake.contains(n.food)
        },
        g.target_cell() != g.food ==> g.ticked().snake.len() == g.snake.len() && !g.ticked().game_over,
{
    if g.target_cell() == g.food && g.free().len() > 0 {
        let free = g.free();
        lemma_free_cells_members(seq![g.target_cell()] + g.snake, g.width, g.height as nat);
        let k = range_value(g.seed, 0, free.len() as int);
        lemma_range_value_bounds(g.seed, 0, free.len() as int);
        assert(g.ticked().food == free[k]);
    }
}

/// While the food lies off the snake, a tick that leaves the game running
/// keeps it off the snake.
pub proof fn lemma_food_stays_off_snake(g: GameView)
    requires
        g.wf(),
        !g.snake.contains(g.food),
    ensures
        !g.ticked().game_over ==> !g.ticked().snake.contains(g.ticked().food),
{
    let n = g.ticked();
    if !g.game_over && !g.collides() {
        if g.target_cell() != g.food {
            lemma_contains_prepend(g.target_cell(), g.snake.drop_last(), g.food);
            if g.snake.drop_last().contains(g.food) {
                let j = choose|j: int| 0 <= j < g.snake.drop_last().len() && g.snake.drop_last()[j] == g.food;
                assert(g.snake[j] == g.food);
            }
        } else {
            lemma_growth(g);
        }
    }
}

/// Once the game is over, a tick changes nothing.
pub proof fn lemma_game_over_is_final(g: GameView)
    requires
        g.game_over,
    ensures
        g.ticked() == g,
{
}

/// A move into the body (its last cell included) ends the game on that tick
/// and leaves the snake, the food and the heading as they were.
pub proof fn lemma_self_collision(g: GameView)
    requires
        g.wf(),
        !g.game_over,
        g.snake.contains(g.target_cell()),
    ensures
        g.ticked().game_over,
        g.ticked().snake == g.snake,
        g.ticked().food == g.food,
        g.ticked().direction == g.direction,
{
}

/// No cell is left for new food exactly when every cell of the grid is the
/// snake's or the one its head moves into.
pub proof fn lemma_no_free_cell_iff_board_full(g: GameView)
    requires
        g.wf(),
    ensures
        g.free().len() == 0 <==> forall|c: Position|
            #[trigger] on_grid(g.width, g.height, c) ==> c == g.target_cell() || g.snake.contains(c),
{
    let body = seq![g.target_cell()] + g.snake;
    lemma_free_cells_members(body, g.width, g.height as nat);
    if g.free().len() == 0 {
        assert forall|c: Position| #[trigger] on_grid(g.width, g.height, c) implies c == g.target_cell()
            || g.snake.contains(c) by {
            lemma_contains_prepend(g.target_cell(), g.snake, c);
            if !body.contains(c) {
                lemma_free_cells_complete(body, g.width, g.height as nat, c);
            }
        }
    } else {
        let c = g.free()[0];
        lemma_contains_prepend(g.target_cell(), g.snake, c);
        assert(on_grid(g.width, g.height, c));
    }
}

/// Eating the food when every other cell of the grid is the snake's ends the
/// game, and leaves the snake and the food as they were.
pub proof fn lemma_board_full(g: GameView)
    requires
        g.wf(),
        !g.game_over,
        !g.collides(),
        g.target_cell() == g.food,
        forall|c: Position| #[trigger] on_grid(g.width, g.height, c) && c != g.food ==> g.snake.contains(c),
    ensures
        g.ticked().game_over,
        g.ticked().snake == g.snake,
        g.ticked().food == g.food,
{
    assert forall|c: Position| #[trigger] on_grid(g.width, g.height, c) implies c == g.target_cell()
        || g.snake.contains(c) by {
        if c != g.food {
            assert(on_grid(g.width, g.height, c) && c != g.food);
        }
    }
    lemma_no_free_cell_iff_board_full(g);
}

} // verus!
