use vstd::prelude::*;
use vstd::arithmetic::div_mod::{
    lemma_fundamental_div_mod,
    lemma_fundamental_div_mod_converse,
    lemma_mod_pos_bound,
    lemma_div_is_ordered,
};
use vstd::arithmetic::mul::{lemma_mul_inequality, lemma_mul_is_commutative};
use crate::app::{App, AppState, Difficulty};
use crate::enemy::Enemy;
use crate::player::Tank;
use crate::wall::{Wall, WallType, placed};

verus! {

/// `i` is a multiple of `d`; zero is the only multiple of zero.
pub open spec fn multiple_of(i: int, d: int) -> bool {
    if d == 0 { i == 0 } else { i % d == 0 }
}

/// The arena is cut into an `n` by `n` grid of blocks; walls fill it row by
/// row from the top left, enemies from the bottom right.
pub struct Grid {
    pub width: u16,
    pub height: u16,
    pub n: u16,
    pub factor: u16,
    pub div_factor: u16,
}

impl Grid {
    pub open spec fn block_width(self) -> int {
        self.width as int / self.n as int
    }

    pub open spec fn block_height(self) -> int {
        self.height as int / self.n as int
    }

    /// Wall `i`: in grid cell `(i % n, i / n)`. When `i` is a multiple of
    /// `div_factor` it is a bar two rows high across most of the block's
    /// width, a third of the way into the block; otherwise a post six columns
    /// wide down most of the block's height. Every fourth wall is water.
    pub open spec fn wall(self, i: int) -> Wall {
        let bw = self.block_width();
        let bh = self.block_height();
        let f = self.factor as int;
        let x = (i % self.n as int) * bw;
        let y = bh / 2 + (i / self.n as int) * bh;
        let rect = if multiple_of(i, self.div_factor as int) {
            placed((x as u16, y as u16), ((bw * f / (f + 1)) as u16, 2u16))
        } else {
            placed((x as u16, (y - bh / 2) as u16), (6u16, (bh * f / (f + 1)) as u16))
        };
        Wall {
            rect,
            wall_type: if (i + 1) % 4 == 0 { WallType::Water } else { WallType::Static },
        }
    }

    /// Enemy `i`: a fresh enemy in grid cell `(i % n, i / n)` counted from the
    /// bottom right corner, a third of a block in from that cell's far corner.
    pub open spec fn enemy(self, i: int) -> Enemy {
        let bw = self.block_width();
        let bh = self.block_height();
        let x = self.width - (i % self.n as int) * bw;
        let y = self.height - (i / self.n as int) * bh;
        Enemy::fresh(((x - bw / 3) as u16, (y - bh / 3) as u16))
    }

    /// Laying out `n_walls` walls and `n_enemies` enemies stays within the
    /// numbers a `u16` holds, and the grid has at least one block.
    pub open spec fn fits(self, n_walls: u16, n_enemies: u16) -> bool {
        let bw = self.block_width();
        let bh = self.block_height();
        let n = self.n as int;
        &&& n >= 1
        &&& n_walls > 0 ==> {
            &&& self.factor < u16::MAX
            &&& bw * self.factor <= u16::MAX
            &&& bh / 2 + (n_walls as int / n) * bh <= u16::MAX
        }
        &&& n_walls >= 2 && self.div_factor != 1 ==> bh * self.factor <= u16::MAX
        &&& n_enemies > 0 ==> {
            &&& ((n_enemies - 1) / n) * bh + bh / 3 <= self.height
            &&& (n_enemies as int / n) * bh <= self.height
        }
    }
}

/// Moving on by one in row-major order through rows of `n` cells.
proof fn lemma_next_cell(i: int, n: int)
    requires
        n > 0,
        i >= 0,
    ensures
        (i + 1) % n == 0 ==> (i + 1) / n == i / n + 1 && i % n == n - 1,
        (i + 1) % n != 0 ==> (i + 1) / n == i / n && (i + 1) % n == i % n + 1,
{
    lemma_fundamental_div_mod(i, n);
    lemma_mod_pos_bound(i, n);
    lemma_mul_is_commutative(n, i / n);
    if i % n + 1 < n {
        lemma_fundamental_div_mod_converse(i + 1, n, i / n, i % n + 1);
    } else {
        assert(i + 1 == (i / n + 1) * n) by (nonlinear_arith)
            requires
                i == (i / n) * n + i % n,
                i % n == n - 1,
        ;
        lemma_fundamental_div_mod_converse(i + 1, n, i / n + 1, 0);
    }
}

/// A column of the grid that lies left of the last one ends inside the
/// arena: `(c + 1) * (w / n) <= w`.
proof fn lemma_cell_inside(c: int, n: int, w: int)
    requires
        n > 0,
        w >= 0,
        0 <= c < n,
    ensures
        (c + 1) * (w / n) <= n * (w / n) <= w,
        c * (w / n) <= w - (w / n),
{
    lemma_fundamental_div_mod(w, n);
    lemma_mod_pos_bound(w, n);
    lemma_mul_inequality(c + 1, n, w / n);
    assert(c * (w / n) + (w / n) == (c + 1) * (w / n)) by (nonlinear_arith);
}

/// Where enemy `k` of a layout that fits stands, in whole numbers.
proof fn lemma_enemy_cell(g: Grid, n_walls: u16, n_enemies: u16, k: int)
    requires
        g.fits(n_walls, n_enemies),
        0 <= k < n_enemies,
    ensures
        g.enemy(k).tank.position.0 as int == g.width - (k % g.n as int) * g.block_width() - g.block_width() / 3,
        g.enemy(k).tank.position.1 as int == g.height - (k / g.n as int) * g.block_height() - g.block_height() / 3,
{
    let (n, bh) = (g.n as int, g.block_height());
    lemma_mod_pos_bound(k, n);
    lemma_cell_inside(k % n, n, g.width as int);
    lemma_div_is_ordered(k, n_enemies - 1, n);
    lemma_mul_inequality(k / n, (n_enemies - 1) / n, bh);
    lemma_fundamental_div_mod(k, n);
    assert(0 <= (k / n) * bh) by (nonlinear_arith)
        requires
            k >= 0,
            n > 0,
            bh >= 0,
            k / n >= 0,
    ;
}

/// Moving on a grid row: `k + n` is in the same column as `k`, one row on.
proof fn lemma_next_row(k: int, n: int)
    requires
        n > 0,
        k >= 0,
    ensures
        (k + n) % n == k % n,
        (k + n) / n == k / n + 1,
{
    lemma_fundamental_div_mod(k, n);
    lemma_mod_pos_bound(k, n);
    lemma_mul_is_commutative(n, k / n);
    assert(k + n == (k / n + 1) * n + k % n) by (nonlinear_arith)
        requires
            k == (k / n) * n + k % n,
    ;
    lemma_fundamental_div_mod_converse(k + n, n, k / n + 1, k % n);
}

/// The first enemy stands a third of a block in from the bottom right
/// corner of the arena.
pub proof fn lemma_first_enemy(g: Grid, n_walls: u16, n_enemies: u16)
    requires
        g.fits(n_walls, n_enemies),
        n_enemies > 0,
    ensures
        g.enemy(0).tank.position.0 as int == g.width - g.block_width() / 3,
        g.enemy(0).tank.position.1 as int == g.height - g.block_height() / 3,
{
    lemma_enemy_cell(g, n_walls, n_enemies, 0);
    let (n, bw, bh) = (g.n as int, g.block_width(), g.block_height());
    lemma_fundamental_div_mod_converse(0, n, 0, 0);
    assert((0int % n) * bw == 0 && (0int / n) * bh == 0) by (nonlinear_arith)
        requires
            0int % n == 0,
            0int / n == 0,
    ;
}

/// Enemy `k + n` stands in the same column as enemy `k`, exactly one block
/// higher: enemies fill the grid row by row, upwards.
pub proof fn lemma_enemy_rows(g: Grid, n_walls: u16, n_enemies: u16, k: int)
    requires
        g.fits(n_walls, n_enemies),
        0 <= k,
        k + g.n < n_enemies,
    ensures
        g.enemy(k + g.n).tank.position.0 == g.enemy(k).tank.position.0,
        g.enemy(k + g.n).tank.position.1 as int == g.enemy(k).tank.position.1 - g.block_height(),
{
    let (n, bh) = (g.n as int, g.block_height());
    lemma_enemy_cell(g, n_walls, n_enemies, k);
    lemma_enemy_cell(g, n_walls, n_enemies, k + n);
    lemma_next_row(k, n);
    assert((k / n + 1) * bh == (k / n) * bh + bh) by (nonlinear_arith);
}

/// Within a grid row, enemy `k + 1` stands one block left of enemy `k`, on
/// the same row.
pub proof fn lemma_enemy_columns(g: Grid, n_walls: u16, n_enemies: u16, k: int)
    requires
        g.fits(n_walls, n_enemies),
        0 <= k,
        k + 1 < n_enemies,
        (k + 1) % (g.n as int) != 0,
    ensures
        g.enemy(k + 1).tank.position.1 == g.enemy(k).tank.position.1,
        g.enemy(k + 1).tank.position.0 as int == g.enemy(k).tank.position.0 - g.block_width(),
{
    let (n, bw) = (g.n as int, g.block_width());
    lemma_enemy_cell(g, n_walls, n_enemies, k);
    lemma_enemy_cell(g, n_walls, n_enemies, k + 1);
    lemma_next_cell(k, n);
    assert((k % n + 1) * bw == (k % n) * bw + bw) by (nonlinear_arith);
}

/// On an arena at least as wide and as high as the grid, no two enemies
/// start on the same cell.
pub proof fn lemma_enemies_apart(g: Grid, n_walls: u16, n_enemies: u16, k1: int, k2: int)
    requires
        g.fits(n_walls, n_enemies),
        g.width >= g.n,
        g.height >= g.n,
        0 <= k1 < k2 < n_enemies,
    ensures
        g.enemy(k1).tank.position != g.enemy(k2).tank.position,
{
    let (n, bw, bh) = (g.n as int, g.block_width(), g.block_height());
    lemma_enemy_cell(g, n_walls, n_enemies, k1);
    lemma_enemy_cell(g, n_walls, n_enemies, k2);
    lemma_fundamental_div_mod(g.width as int, n);
    lemma_fundamental_div_mod(g.height as int, n);
    lemma_mod_pos_bound(g.width as int, n);
    lemma_mod_pos_bound(g.height as int, n);
    if bw == 0 {
        assert(n * bw == 0) by (nonlinear_arith)
            requires
                bw == 0,
        ;
    }
    if bh == 0 {
        assert(n * bh == 0) by (nonlinear_arith)
            requires
                bh == 0,
        ;
    }
    lemma_fundamental_div_mod(k1, n);
    lemma_fundamental_div_mod(k2, n);
    let (c1, r1, c2, r2) = (k1 % n, k1 / n, k2 % n, k2 / n);
    if c1 == c2 && r1 == r2 {
        assert(k1 == k2);
    } else if c1 != c2 {
        assert(c1 * bw != c2 * bw) by (nonlinear_arith)
            requires
                c1 != c2,
                bw >= 1,
        ;
    } else {
        assert(r1 * bh != r2 * bh) by (nonlinear_arith)
            requires
                r1 != r2,
                bh >= 1,
        ;
    }
}

/// Wall `k` starts in its own grid cell: at the left edge of column `k % n`,
/// and between the top and the middle of row `k / n`. When `k` is a
/// multiple of `div_factor` (zero being the only multiple of zero) it is a
/// bar two rows high, `factor / (factor + 1)` of a block wide, halfway down
/// the row; otherwise a post six columns wide and `factor / (factor + 1)` of
/// a block high, at the top of the row.
pub proof fn lemma_wall_in_its_cell(g: Grid, n_walls: u16, n_enemies: u16, k: int)
    requires
        g.fits(n_walls, n_enemies),
        0 <= k < n_walls,
    ensures
        g.wall(k).rect.x as int == (k % g.n as int) * g.block_width(),
        (k / g.n as int) * g.block_height() <= g.wall(k).rect.y as int <= (k / g.n as int)
            * g.block_height() + g.block_height() / 2,
        ((g.div_factor == 0 && k == 0) || (g.div_factor != 0 && k % g.div_factor as int == 0)) ==> {
            &&& g.wall(k).rect.width as int == g.block_width() * g.factor / (g.factor + 1)
            &&& g.wall(k).rect.height == 2
            &&& g.wall(k).rect.y as int == (k / g.n as int) * g.block_height() + g.block_height() / 2
        },
        !((g.div_factor == 0 && k == 0) || (g.div_factor != 0 && k % g.div_factor as int == 0)) ==> {
            &&& g.wall(k).rect.width == 6
            &&& g.wall(k).rect.height as int == g.block_height() * g.factor / (g.factor + 1)
            &&& g.wall(k).rect.y as int == (k / g.n as int) * g.block_height()
        },
{
    let (n, bh) = (g.n as int, g.block_height());
    lemma_mod_pos_bound(k, n);
    lemma_cell_inside(k % n, n, g.width as int);
    lemma_div_is_ordered(k, n_walls as int, n);
    lemma_mul_inequality(k / n, n_walls as int / n, bh);
    lemma_fundamental_div_mod(k, n);
    assert(0 <= (k / n) * bh) by (nonlinear_arith)
        requires
            k / n >= 0,
            bh >= 0,
    ;
}

/// Whether laying out `n_walls` walls and `n_enemies` enemies on this grid
/// stays within the numbers a `u16` holds, as `Grid::fits` states.
pub fn layout_fits(
    width: u16,
    height: u16,
    n: u16,
    n_walls: u16,
    n_enemies: u16,
    factor: u16,
    div_factor: u16,
) -> (ok: bool)
    ensures
        ok == (Grid { width, height, n, factor, div_factor }).fits(n_walls, n_enemies),
{
    if n == 0 {
        return false;
    }
    let bw: u64 = (width / n) as u64;
    let bh: u64 = (height / n) as u64;
    let n64: u64 = n as u64;
    let f: u64 = factor as u64;
    let max: u64 = u16::MAX as u64;
    let qw: u64 = n_walls as u64 / n64;
    proof {
        assert(bw * f <= 0xffff * 0xffff && bh * f <= 0xffff * 0xffff && qw * bh <= 0xffff * 0xffff)
            by (nonlinear_arith)
            requires
                bw <= 0xffff,
                bh <= 0xffff,
                f <= 0xffff,
                qw <= 0xffff,
        ;
    }
    let walls_ok = n_walls == 0 || (f < max && bw * f <= max && bh / 2 + qw * bh <= max);
    let posts_ok = !(n_walls >= 2 && div_factor != 1) || bh * f <= max;
    let enemies_ok = if n_enemies == 0 {
        true
    } else {
        let q1: u64 = (n_enemies as u64 - 1) / n64;
        let q2: u64 = n_enemies as u64 / n64;
        proof {
            assert(q1 * bh <= 0xffff * 0xffff && q2 * bh <= 0xffff * 0xffff) by (nonlinear_arith)
                requires
                    q1 <= 0xffff,
                    q2 <= 0xffff,
                    bh <= 0xffff,
            ;
        }
        q1 * bh + bh / 3 <= height as u64 && q2 * bh <= height as u64
    };
    walls_ok && posts_ok && enemies_ok
}

impl App {
    /// A new round on an arena of `width` by `height` cells cut into an `n`
    /// by `n` grid: the player at `(2, 2)`, then `n_walls` walls and
    /// `n_enemies` enemies laid out over the grid as `Grid::wall` and
    /// `Grid::enemy` state.
    pub fn new_random(
        width: u16,
        height: u16,
        n: u16,
        n_walls: u16,
        n_enemies: u16,
        factor: u16,
        div_factor: u16,
        lvl: u16,
        is_hard: bool,
    ) -> (app: App)
        requires
            (Grid { width, height, n, factor, div_factor }).fits(n_walls, n_enemies),
        ensures
            ({
                let g = Grid { width, height, n, factor, div_factor };
                &&& app.player == Tank::fresh((2, 2))
                &&& app.walls@.len() == n_walls
                &&& forall|k: int| 0 <= k < n_walls ==> #[trigger] app.walls@[k] == g.wall(k)
                &&& app.enemies@.len() == n_enemies
                &&& forall|k: int| 0 <= k < n_enemies ==> #[trigger] app.enemies@[k] == g.enemy(k)
                &&& app.bullets@.len() == 0
                &&& app.dummies@.len() == 0
                &&& app.difficulty == (if is_hard { Difficulty::Hard } else { Difficulty::Easy })
                &&& app.state == AppState::Playing
                &&& app.lvl == lvl
            }),
    {
        let ghost g = Grid { width, height, n, factor, div_factor };
        let mut app = App {
            player: Tank::new((2, 2)),
            walls: Vec::new(),
            enemies: Vec::new(),
            bullets: Vec::new(),
            dummies: Vec::new(),
            difficulty: if is_hard {
                Difficulty::Hard
            } else {
                Difficulty::Easy
            },
            state: AppState::Playing,
            lvl,
        };
        let block_width: u16 = width / n;
        let block_height: u16 = height / n;
        let mut x: u16 = 0;
        let mut y: u16 = block_height / 2;
        let mut i: u16 = 0;
        proof {
            lemma_fundamental_div_mod_converse(0, n as int, 0, 0);
        }
        while i < n_walls
            invariant
                g == (Grid { width, height, n, factor, div_factor }),
                g.fits(n_walls, n_enemies),
                block_width == g.block_width(),
                block_height == g.block_height(),
                i <= n_walls,
                x == (i % n) * block_width,
                y == block_height / 2 + (i / n) * block_height,
                app.walls@.len() == i,
                forall|k: int| 0 <= k < i ==> #[trigger] app.walls@[k] == g.wall(k),
                app.player == Tank::fresh((2, 2)),
                app.enemies@.len() == 0,
                app.bullets@.len() == 0,
                app.dummies@.len() == 0,
                app.difficulty == (if is_hard { Difficulty::Hard } else { Difficulty::Easy }),
                app.state == AppState::Playing,
                app.lvl == lvl,
            decreases n_walls - i,
        {
            proof {
                let (ii, nn, bh) = (i as int, n as int, block_height as int);
                lemma_next_cell(ii, nn);
                lemma_mod_pos_bound(ii, nn);
                lemma_cell_inside(ii % nn, nn, width as int);
                lemma_div_is_ordered(ii + 1, n_walls as int, nn);
                lemma_mul_inequality((ii + 1) / nn, n_walls as int / nn, bh);
                assert((ii / nn + 1) * bh == (ii / nn) * bh + bh) by (nonlinear_arith);
                let bw = block_width as int;
                assert((ii % nn + 1) * bw == (ii % nn) * bw + bw) by (nonlinear_arith);
                if !multiple_of(i as int, div_factor as int) {
                    assert(i != 0);
                    assert(div_factor != 1);
                }
            }
            let (position, size) = if i.is_multiple_of(div_factor) {
                ((x, y), (block_width * factor / (factor + 1), 2))
            } else {
                ((x, y - (block_height / 2)), (6, block_height * factor / (factor + 1)))
            };
            if (i + 1).is_multiple_of(4) {
                app.walls.push(Wall::new_water(position, size));
            } else {
                app.walls.push(Wall::new(position, size));
            }
            if (i + 1).is_multiple_of(n) {
                x = 0;
                y += block_height;
            } else {
                x += block_width
            }
            i += 1;
        }
        x = width;
        y = height;
        let mut i: u16 = 0;
        while i < n_enemies
            invariant
                g == (Grid { width, height, n, factor, div_factor }),
                g.fits(n_walls, n_enemies),
                block_width == g.block_width(),
                block_height == g.block_height(),
                i <= n_enemies,
                x == width - (i % n) * block_width,
                y == height - (i / n) * block_height,
                app.enemies@.len() == i,
                forall|k: int| 0 <= k < i ==> #[trigger] app.enemies@[k] == g.enemy(k),
                app.walls@.len() == n_walls,
                forall|k: int| 0 <= k < n_walls ==> #[trigger] app.walls@[k] == g.wall(k),
                app.player == Tank::fresh((2, 2)),
                app.bullets@.len() == 0,
                app.dummies@.len() == 0,
                app.difficulty == (if is_hard { Difficulty::Hard } else { Difficulty::Easy }),
                app.state == AppState::Playing,
                app.lvl == lvl,
            decreases n_enemies - i,
        {
            proof {
                let (ii, nn, bh, ne) = (i as int, n as int, block_height as int, n_enemies as int);
                lemma_next_cell(ii, nn);
                lemma_mod_pos_bound(ii, nn);
                lemma_cell_inside(ii % nn, nn, width as int);
                lemma_div_is_ordered(ii, ne - 1, nn);
                lemma_div_is_ordered(ii + 1, ne, nn);
                lemma_mul_inequality(ii / nn, (ne - 1) / nn, bh);
                lemma_mul_inequality((ii + 1) / nn, ne / nn, bh);
                assert((ii / nn + 1) * bh == (ii / nn) * bh + bh) by (nonlinear_arith);
                let bw = block_width as int;
                assert((ii % nn + 1) * bw == (ii % nn) * bw + bw) by (nonlinear_arith);
            }
            app.enemies.push(Enemy::new((x - (block_width / 3), y - (block_height / 3))));
            if (i + 1).is_multiple_of(n) {
                x = width;
                y -= block_height;
            } else {
                x -= block_width
            }
            i += 1;
        }
        app
    }
}

} // verus!
