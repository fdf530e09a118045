//! The victory animation, the final tab. A frame-driven two-stage effect:
//! first a matrix-style rain fills every terminal column with random
//! characters, each column growing by at most one character per frame with
//! a three-quarters chance; once every column is full, a logo is revealed
//! cell by cell, the revealed fraction growing linearly until it reaches
//! everything thirty frames later. The reveal pattern is drawn from a
//! generator reseeded with the same seed every frame, so it only ever
//! grows. The screen ignores all input and never leaves the tab.

use vstd::prelude::*;
use vstd::string::StrSliceExecFns;
use rand::RngCore;
use rand::SeedableRng;
use crate::input::KeyEvent;

verus! {

/// Frames to wait before the rain starts.
pub const RAIN_DELAY: usize = 10;

/// Frames the logo reveal takes to reach every cell.
pub const REVEAL_FRAMES: usize = 30;

/// The seed the reveal pattern is drawn from, anew each frame.
pub const REVEAL_SEED: u64 = 42;

/// Out of the 256 values of a random byte, how many let a column grow:
/// the three-quarters chance of the rain.
pub const GROW_CHANCE: u8 = 192;

#[verifier::external_type_specification]
#[verifier::external_body]
pub struct ExSmallRng(rand::rngs::SmallRng);

/// Relies on `rand::random`: a value drawn from the thread-local
/// generator; nothing is promised of it.
pub assume_specification<T>[ rand::random::<T> ]() -> (r: T)
    where
        rand::distributions::Standard: rand::distributions::Distribution<T>,
;

/// Relies on `SeedableRng::seed_from_u64` on `SmallRng`: a generator built
/// from the seed; nothing is promised of its draws.
#[verifier::external_body]
fn rng_from_seed(seed: u64) -> rand::rngs::SmallRng {
    rand::rngs::SmallRng::seed_from_u64(seed)
}

/// Relies on `RngCore::next_u64` on `SmallRng`: the generator's next
/// draw; nothing is promised of it.
#[verifier::external_body]
fn rng_next(rng: &mut rand::rngs::SmallRng) -> u64 {
    rng.next_u64()
}

/// The characters the rain is made of: halfwidth katakana, capitals and
/// digits.
pub open spec fn rain_alphabet() -> Seq<char> {
    "ｦｧｨｩｪｫｬｭｮｯｰｱｲｳｴｵｶｷｸｹｺｻｼｽｾｿﾀﾁﾂﾃﾄﾅﾆﾇﾈﾉﾊﾋﾌﾍﾎﾏﾐﾑﾒﾓﾔﾕﾖﾗﾘﾙﾚﾛﾜﾝABCDEFGHIJKLMNOPQRSTUVWXYZ0123456789"@
}

/// The rain character the draw `pick` selects.
pub fn pick_rain_char(pick: u32) -> (c: char)
    ensures
        c == rain_alphabet()[pick as int % 92],
        rain_alphabet().contains(c),
{
    let s = "ｦｧｨｩｪｫｬｭｮｯｰｱｲｳｴｵｶｷｸｹｺｻｼｽｾｿﾀﾁﾂﾃﾄﾅﾆﾇﾈﾉﾊﾋﾌﾍﾎﾏﾐﾑﾒﾓﾔﾕﾖﾗﾘﾙﾚﾛﾜﾝABCDEFGHIJKLMNOPQRSTUVWXYZ0123456789";
    proof {
        reveal_strlit(
            "ｦｧｨｩｪｫｬｭｮｯｰｱｲｳｴｵｶｷｸｹｺｻｼｽｾｿﾀﾁﾂﾃﾄﾅﾆﾇﾈﾉﾊﾋﾌﾍﾎﾏﾐﾑﾒﾓﾔﾕﾖﾗﾘﾙﾚﾛﾜﾝABCDEFGHIJKLMNOPQRSTUVWXYZ0123456789",
        );
        assert(s@.len() == 92);
    }
    let idx = (pick % 92) as usize;
    s.get_char(idx)
}

/// The view of a grid of columns.
pub open spec fn grid_view(g: Seq<Vec<char>>) -> Seq<Seq<char>> {
    g.map_values(|c: Vec<char>| c@)
}

/// The mathematical value of the animation state.
pub ghost struct VictoryV {
    /// One sequence of revealed characters per terminal column.
    pub grid: Seq<Seq<char>>,
    /// Frames seen so far.
    pub ticks: usize,
    /// The frame count at which the rain completed, `usize::MAX` while it
    /// has not.
    pub done_tick: usize,
}

pub open spec fn victory_wf(v: VictoryV) -> bool {
    v.done_tick == usize::MAX || v.done_tick < v.ticks
}

/// Mutable state of the victory animation.
#[derive(Debug, Clone, PartialEq, Eq)]
pub struct VictoryState {
    grid: Vec<Vec<char>>,
    ticks: usize,
    done_tick: usize,
}

impl View for VictoryState {
    type V = VictoryV;

    closed spec fn view(&self) -> VictoryV {
        VictoryV { grid: grid_view(self.grid@), ticks: self.ticks, done_tick: self.done_tick }
    }
}

/// What one frame asks the front end to draw.
#[derive(Debug, Clone, Copy, PartialEq, Eq, Structural)]
pub enum VictoryPhase {
    /// The initial delay: draw nothing.
    Waiting,
    /// The rain is still falling: draw the grid.
    Raining,
    /// The rain is done: draw the grid and the logo cells the reveal mask
    /// picks for this sub-frame.
    Revealing(usize),
}

/// How one frame may change one column: it stays, or — when it is shorter
/// than the screen and its coin came up — grows by one rain character.
pub open spec fn column_grown(oc: Seq<char>, nc: Seq<char>, height: usize) -> bool {
    nc == oc || (oc.len() < height && nc.len() == oc.len() + 1 && nc.take(oc.len() as int) == oc
        && rain_alphabet().contains(nc.last()))
}

/// How one frame changes the whole grid: one column per terminal column,
/// kept columns grown by at most one character, fresh columns empty or
/// one character tall.
pub open spec fn grid_grown(og: Seq<Seq<char>>, ng: Seq<Seq<char>>, width: usize, height: usize) -> bool {
    ng.len() == width && forall|j: int|
        0 <= j < width ==> column_grown(
            if j < og.len() {
                og[j]
            } else {
                Seq::empty()
            },
            #[trigger] ng[j],
            height,
        )
}

/// Every column has reached the bottom of the screen.
pub open spec fn rain_complete(g: Seq<Seq<char>>, height: usize) -> bool {
    forall|j: int| 0 <= j < g.len() ==> (#[trigger] g[j]).len() == height
}

/// How one frame relates the old and the new animation state, and what it
/// asks the front end to draw. The frame count always advances (until it
/// saturates). Within the initial delay nothing else happens; afterwards
/// the rain grows as [`grid_grown`] allows, and once every column is full
/// the phase carries the sub-frame the logo reveal has reached.
pub open spec fn victory_frame_ok(
    v0: VictoryV,
    v1: VictoryV,
    width: usize,
    height: usize,
    p: VictoryPhase,
) -> bool {
    &&& v1.ticks == if v0.ticks < usize::MAX {
        (v0.ticks + 1) as usize
    } else {
        v0.ticks
    }
    &&& v0.ticks <= RAIN_DELAY ==> p == VictoryPhase::Waiting && v1.grid == v0.grid
        && v1.done_tick == v0.done_tick
    &&& v0.ticks > RAIN_DELAY ==> grid_grown(v0.grid, v1.grid, width, height)
    &&& v0.ticks > RAIN_DELAY && !rain_complete(v1.grid, height) ==> p == VictoryPhase::Raining
        && v1.done_tick == v0.done_tick
    &&& v0.ticks > RAIN_DELAY && rain_complete(v1.grid, height) ==> {
        let done = if v0.done_tick == usize::MAX {
            v0.ticks
        } else {
            v0.done_tick
        };
        v1.done_tick == done && p == VictoryPhase::Revealing((v0.ticks - done) as usize)
    }
}

/// The grown copy of one column: the same characters, plus the picked
/// rain character when there is room and the coin allows.
fn grown_column(col: &Vec<char>, height: usize, coin: u8, pick: u32) -> (nc: Vec<char>)
    ensures
        column_grown(col@, nc@, height),
        col@.len() < height && coin < GROW_CHANCE ==> nc@.len() == col@.len() + 1,
        (col@.len() < height && coin < GROW_CHANCE) || nc@ == col@,
{
    let mut nc: Vec<char> = Vec::new();
    let mut i: usize = 0;
    while i < col.len()
        invariant
            i <= col@.len(),
            nc@ == col@.take(i as int),
        decreases col@.len() - i,
    {
        nc.push(col[i]);
        proof {
            assert(col@.take(i as int).push(col@[i as int]) =~= col@.take(i + 1));
        }
        i = i + 1;
    }
    proof {
        assert(col@.take(col@.len() as int) =~= col@);
    }
    if nc.len() < height && coin < GROW_CHANCE {
        nc.push(pick_rain_char(pick));
        proof {
            assert(nc@.take(col@.len() as int) =~= col@);
        }
    }
    nc
}

impl VictoryState {
    /// A fresh animation: a hundred empty columns — resized to the real
    /// terminal width on the first drawn frame — and no frames seen.
    pub fn new() -> (s: Self)
        ensures
            s@.grid.len() == 100,
            forall|j: int| 0 <= j < 100 ==> (#[trigger] s@.grid[j]).len() == 0,
            s@.ticks == 0,
            s@.done_tick == usize::MAX,
            victory_wf(s@),
    {
        let mut grid: Vec<Vec<char>> = Vec::new();
        let mut i: usize = 0;
        while i < 100
            invariant
                i <= 100,
                grid@.len() == i,
                forall|j: int| 0 <= j < i ==> (#[trigger] grid@[j])@.len() == 0,
            decreases 100 - i,
        {
            grid.push(Vec::new());
            i = i + 1;
        }
        VictoryState { grid, ticks: 0, done_tick: usize::MAX }
    }

    /// The revealed rain, one vector of characters per column.
    pub fn grid(&self) -> (g: &Vec<Vec<char>>)
        ensures
            grid_view(g@) == self@.grid,
    {
        &self.grid
    }

    /// Advance the animation by one frame on a `width` by `height` screen
    /// and say what to draw. Until the initial delay has passed nothing
    /// changes; then the rain grows — how is up to the random coins, but
    /// only as [`grid_grown`] allows — and once every column is full the
    /// phase carries the sub-frame the logo reveal has reached.
    pub fn on_frame(&mut self, width: usize, height: usize) -> (p: VictoryPhase)
        requires
            victory_wf(old(self)@),
        ensures
            victory_wf(final(self)@),
            victory_frame_ok(old(self)@, final(self)@, width, height, p),
    {
        let curr = self.ticks;
        if self.ticks < usize::MAX {
            self.ticks = self.ticks + 1;
        }
        if curr <= RAIN_DELAY {
            return VictoryPhase::Waiting;
        }
        let complete = rain_step(&mut self.grid, width, height);
        if !complete {
            return VictoryPhase::Raining;
        }
        if self.done_tick == usize::MAX {
            self.done_tick = curr;
        }
        VictoryPhase::Revealing(curr - self.done_tick)
    }
}

/// Grow the rain by one frame: fit the grid to the terminal width, give
/// every short column its chance to grow, and say whether every column
/// now reaches the bottom.
fn rain_step(grid: &mut Vec<Vec<char>>, width: usize, height: usize) -> (complete: bool)
    ensures
        grid_grown(grid_view(old(grid)@), grid_view(final(grid)@), width, height),
        complete == rain_complete(grid_view(final(grid)@), height),
{
    let ghost og = grid_view(old(grid)@);
    proof {
        assert forall|m: int| 0 <= m < grid@.len() implies #[trigger] grid@[m]@ == og[m] by {
            assert(og[m] == old(grid)@.map_values(|c: Vec<char>| c@)[m]);
        }
    }
    while grid.len() > width
        invariant
            grid@.len() <= og.len(),
            grid@.len() >= width || grid@.len() == og.len(),
            forall|m: int| 0 <= m < grid@.len() ==> #[trigger] grid@[m]@ == og[m],
        decreases grid@.len(),
    {
        grid.pop();
    }
    while grid.len() < width
        invariant
            grid@.len() <= width,
            grid@.len() >= og.len() || grid@.len() >= width,
            forall|m: int|
                0 <= m < grid@.len() ==> (m < og.len() ==> #[trigger] grid@[m]@ == og[m]) && (m
                    >= og.len() ==> grid@[m]@.len() == 0),
        decreases width - grid@.len(),
    {
        grid.push(Vec::new());
    }
    let ghost resized = grid@;
    let mut j: usize = 0;
    while j < grid.len()
        invariant
            j <= grid@.len(),
            grid@.len() == resized.len(),
            resized.len() == width,
            forall|m: int|
                0 <= m < resized.len() ==> (m < og.len() ==> #[trigger] resized[m]@ == og[m]) && (
                m >= og.len() ==> resized[m]@.len() == 0),
            forall|m: int| j <= m < resized.len() ==> #[trigger] grid@[m] == resized[m],
            forall|m: int|
                0 <= m < j ==> column_grown(resized[m]@, #[trigger] grid@[m]@, height),
        decreases grid@.len() - j,
    {
        let coin = rand::random::<u8>();
        let pick = rand::random::<u32>();
        let nc = grown_column(&grid[j], height, coin, pick);
        grid[j] = nc;
        j = j + 1;
    }
    proof {
        assert forall|m: int| 0 <= m < width implies column_grown(
            if m < og.len() {
                og[m]
            } else {
                Seq::<char>::empty()
            },
            #[trigger] grid_view(grid@)[m],
            height,
        ) by {
            assert(grid@.map_values(|c: Vec<char>| c@)[m] == grid@[m]@);
            assert(column_grown(resized[m]@, grid@[m]@, height));
            if m >= og.len() {
                assert(resized[m]@ =~= Seq::<char>::empty());
            }
        }
    }
    let mut complete = true;
    let mut k: usize = 0;
    while k < grid.len()
        invariant
            k <= grid@.len(),
            complete == (forall|m: int| 0 <= m < k ==> (#[trigger] grid@[m])@.len() == height),
        decreases grid@.len() - k,
    {
        if grid[k].len() != height {
            complete = false;
            proof {
                assert(grid@[k as int]@.len() != height);
            }
        }
        k = k + 1;
    }
    proof {
        assert forall|m: int| 0 <= m < grid@.len() implies #[trigger] grid_view(grid@)[m]
            == grid@[m]@ by {
            assert(grid@.map_values(|c: Vec<char>| c@)[m] == grid@[m]@);
        }
        if complete {
            assert(rain_complete(grid_view(grid@), height));
        } else {
            let w = choose|m: int| 0 <= m < grid@.len() && (#[trigger] grid@[m])@.len() != height;
            assert(grid_view(grid@)[w].len() != height);
        }
    }
    complete
}

/// Whether the reveal mask shows one logo cell: its draw falls under the
/// fraction `sub_frame` out of [`REVEAL_FRAMES`], everything from
/// [`REVEAL_FRAMES`] on.
pub open spec fn spec_cell_revealed(draw: u64, sub_frame: usize) -> bool {
    sub_frame >= REVEAL_FRAMES || (draw as int) * (REVEAL_FRAMES as int) < (sub_frame as int)
        * 0x1_0000_0000_0000_0000
}

pub fn cell_revealed(draw: u64, sub_frame: usize) -> (r: bool)
    ensures
        r == spec_cell_revealed(draw, sub_frame),
{
    if sub_frame >= REVEAL_FRAMES {
        true
    } else {
        proof {
            assert((draw as u128) * 30 <= 0xffff_ffff_ffff_ffffu128 * 30) by (nonlinear_arith)
                requires
                    draw as u128 <= 0xffff_ffff_ffff_ffffu128,
            ;
            assert((sub_frame as u128) * 0x1_0000_0000_0000_0000 <= 29u128
                * 0x1_0000_0000_0000_0000) by (nonlinear_arith)
                requires
                    sub_frame as u128 <= 29,
            ;
        }
        (draw as u128) * 30 < (sub_frame as u128) * 0x1_0000_0000_0000_0000
    }
}

/// The reveal mask for `n` logo cells at `sub_frame`: each cell's verdict
/// comes from its own draw of a generator reseeded with [`REVEAL_SEED`],
/// so the pattern is the same every frame; from [`REVEAL_FRAMES`] on,
/// every cell is shown.
pub fn reveal_mask(n: usize, sub_frame: usize) -> (m: Vec<bool>)
    ensures
        m@.len() == n,
        sub_frame >= REVEAL_FRAMES ==> forall|i: int| 0 <= i < n ==> m@[i],
{
    let mut rng = rng_from_seed(REVEAL_SEED);
    let mut m: Vec<bool> = Vec::new();
    let mut i: usize = 0;
    while i < n
        invariant
            i <= n,
            m@.len() == i,
            sub_frame >= REVEAL_FRAMES ==> forall|k: int| 0 <= k < i ==> m@[k],
        decreases n - i,
    {
        let draw = rng_next(&mut rng);
        m.push(cell_revealed(draw, sub_frame));
        i = i + 1;
    }
    m
}

/// The victory tab itself: it reacts to nothing.
#[derive(Debug, Clone, PartialEq, Eq, Structural)]
pub struct Victory;

impl Victory {
    /// Input has no effect on the victory screen.
    pub fn handle_input(&self, key: KeyEvent, state: &mut VictoryState) -> (nav: Option<usize>)
        ensures
            nav is None,
            *final(state) == *old(state),
    {
        let _ = key;
        None
    }
}

} // verus!
