//! Row-interleaved work distribution: which rows of the image each worker of
//! a fixed pool renders, in which order it sends their pixels, and which slot
//! of the image buffer each pixel fills.

use vstd::prelude::*;
use vstd::set_lib::set_int_range;
use crate::collector::RenderMessage;
use crate::processors::Processors;
use crate::render::is_pixel_color;
use crate::render::render_pixel;
use crate::render::RenderParams;
use crate::render::Scene;
use crate::vec2::Vec2;

verus! {

/// The least number of rows per worker that lets `threads` workers cover
/// `height` rows: `height / threads`, rounded up. Without workers no number
/// of rows per worker covers a row: the answer is then the largest number
/// there is, or zero where the image has no row.
pub open spec fn spec_scanlines_per_thread(height: nat, threads: nat) -> nat {
    if threads == 0 {
        if height == 0 {
            0
        } else {
            usize::MAX as nat
        }
    } else if height % threads == 0 {
        height / threads
    } else {
        height / threads + 1
    }
}

/// With workers, `spec_scanlines_per_thread` is the ceiling of
/// `height / threads`: the one number whose product with `threads` reaches
/// `height` without passing it by a whole round of the pool.
pub proof fn lemma_scanlines_per_thread_is_ceiling(height: nat, threads: nat)
    requires
        threads > 0,
    ensures
        height <= spec_scanlines_per_thread(height, threads) * threads < height + threads,
        spec_scanlines_per_thread(height, threads) <= height,
{
    let q = height / threads;
    let r = height % threads;
    assert(height == q * threads + r && 0 <= r < threads) by (nonlinear_arith)
        requires
            threads > 0,
            q == height / threads,
            r == height % threads,
    ;
    assert((q + 1) * threads == q * threads + threads) by (nonlinear_arith);
    assert(q <= q * threads) by (nonlinear_arith)
        requires
            threads > 0,
            q >= 0,
    ;
}

/// The number of rows each worker may render, so that the pool as a whole
/// covers every row of an image `height` rows high.
pub fn scanlines_per_thread(height: usize, threads: usize) -> (budget: usize)
    ensures
        budget == spec_scanlines_per_thread(height as nat, threads as nat),
{
    if threads == 0 {
        return if height == 0 {
            0
        } else {
            usize::MAX
        };
    }
    proof {
        lemma_scanlines_per_thread_is_ceiling(height as nat, threads as nat);
    }
    let whole: usize = height / threads;
    if height % threads == 0 {
        whole
    } else {
        whole + 1
    }
}

/// What one worker of the pool needs to know to find its rows.
#[derive(Clone, Copy, Debug, PartialEq, Eq)]
pub struct RenderThreadContext {
    /// This worker's position in the pool, counted from zero.
    pub thread_id: usize,
    /// The size of the pool.
    pub threads: usize,
    /// How many rows this worker renders at most.
    pub scanlines_per_thread: usize,
    /// The height of the image: rows at or beyond it are not rendered.
    pub scanline_max: usize,
}

impl RenderThreadContext {
    /// The row this worker reaches at `iteration`: its own position, then
    /// one pool size further with each iteration.
    pub open spec fn row_at(&self, iteration: int) -> int {
        self.thread_id + iteration * self.threads
    }

    /// Whether this worker renders a row at `iteration`: the iteration is
    /// within the worker's budget and its row lies inside the image.
    pub open spec fn renders(&self, iteration: int) -> bool {
        0 <= iteration < self.scanlines_per_thread && self.row_at(iteration) < self.scanline_max
    }

    /// The iterations at which this worker renders come first: once it
    /// renders at an iteration, it has rendered at every one before.
    pub proof fn lemma_renders_from_the_start(&self, earlier: int, later: int)
        requires
            0 <= earlier <= later,
            self.renders(later),
        ensures
            self.renders(earlier),
    {
        assert(earlier * self.threads <= later * self.threads) by (nonlinear_arith)
            requires
                earlier <= later,
                0 <= self.threads,
        ;
    }

    /// The rows this worker renders, in the order in which it renders them:
    /// one for each iteration at which it renders, and no other.
    pub fn rows(&self) -> (rows: Vec<usize>)
        ensures
            forall|k: int| #[trigger] self.renders(k) <==> 0 <= k < rows.len(),
            forall|k: int| 0 <= k < rows.len() ==> (#[trigger] rows[k]) == self.row_at(k),
    {
        let mut rows: Vec<usize> = Vec::new();
        let mut iteration: usize = 0;
        while iteration < self.scanlines_per_thread
            invariant
                iteration <= self.scanlines_per_thread,
                rows.len() == iteration,
                forall|k: int| 0 <= k < rows.len() ==> #[trigger] self.renders(k),
                forall|k: int| 0 <= k < rows.len() ==> (#[trigger] rows[k]) == self.row_at(k),
            ensures
                forall|k: int| 0 <= k < rows.len() ==> #[trigger] self.renders(k),
                forall|k: int| 0 <= k < rows.len() ==> (#[trigger] rows[k]) == self.row_at(k),
                !self.renders(rows.len() as int),
            decreases self.scanlines_per_thread - iteration,
        {
            let row: usize = match iteration.checked_mul(self.threads) {
                Some(offset) => match self.thread_id.checked_add(offset) {
                    Some(row) => row,
                    None => {
                        break;
                    },
                },
                None => {
                    break;
                },
            };
            if row >= self.scanline_max {
                break;
            }
            rows.push(row);
            iteration = iteration + 1;
        }
        proof {
            assert forall|k: int| #[trigger] self.renders(k) implies 0 <= k < rows.len() by {
                if k >= rows.len() {
                    self.lemma_renders_from_the_start(rows.len() as int, k);
                }
            }
        }
        rows
    }
}

/// The context that the plan gives worker `thread_id` of a pool of `threads`
/// workers, for an image `height` rows high.
pub open spec fn planned_context(
    threads: usize,
    height: usize,
    thread_id: usize,
) -> RenderThreadContext {
    RenderThreadContext {
        thread_id,
        threads,
        scanlines_per_thread: spec_scanlines_per_thread(height as nat, threads as nat) as usize,
        scanline_max: height,
    }
}

/// One context for each worker of the pool, in the order of their positions.
/// A pool of no workers gets an empty plan.
pub fn plan_render_threads(threads: usize, height: usize) -> (plan: Vec<RenderThreadContext>)
    ensures
        plan.len() == threads,
        forall|i: int|
            0 <= i < threads ==> (#[trigger] plan[i]) == planned_context(
                threads,
                height,
                i as usize,
            ),
{
    let mut plan: Vec<RenderThreadContext> = Vec::new();
    let budget: usize = scanlines_per_thread(height, threads);
    let mut thread_id: usize = 0;
    while thread_id < threads
        invariant
            thread_id <= threads,
            plan.len() == thread_id,
            budget == spec_scanlines_per_thread(height as nat, threads as nat),
            forall|i: int|
                0 <= i < thread_id ==> (#[trigger] plan[i]) == planned_context(
                    threads,
                    height,
                    i as usize,
                ),
        decreases threads - thread_id,
    {
        plan.push(
            RenderThreadContext {
                thread_id,
                threads,
                scanlines_per_thread: budget,
                scanline_max: height,
            },
        );
        thread_id = thread_id + 1;
    }
    plan
}

/// Sizes the pool by the logical processing units of this machine and plans
/// an image `height` rows high for it. Whatever the machine reports, the pool
/// has at least one worker and the plan holds one context for each.
pub fn plan_for_this_machine(height: usize) -> (planned: (Processors, Vec<RenderThreadContext>))
    ensures
        planned.0.logical >= 1,
        planned.0.physical >= 1,
        planned.1.len() == planned.0.logical,
        forall|i: int|
            0 <= i < planned.0.logical ==> (#[trigger] planned.1[i]) == planned_context(
                planned.0.logical,
                height,
                i as usize,
            ),
{
    let found = Processors::detect();
    let plan = plan_render_threads(found.logical, height);
    (found, plan)
}

/// The rows that worker `thread_id` of the planned pool renders.
pub open spec fn assigned_rows(threads: usize, height: usize, thread_id: usize) -> Set<int> {
    let context = planned_context(threads, height, thread_id);
    Set::new(|row: int| exists|k: int| #[trigger] context.renders(k) && context.row_at(k) == row)
}

/// The rows that the planned pool renders, all workers taken together.
pub open spec fn all_assigned_rows(threads: usize, height: usize) -> Set<int> {
    Set::new(
        |row: int|
            exists|i: usize|
                i < threads && #[trigger] assigned_rows(threads, height, i).contains(row),
    )
}

/// A pool of at least one worker renders every row of the image exactly
/// once: taken together the workers' rows are the rows of the image, and no
/// row belongs to two workers. (That no worker reaches a row a second time
/// is `lemma_iterations_reach_distinct_rows`.)
pub proof fn lemma_rows_partition(threads: usize, height: usize)
    requires
        threads >= 1,
    ensures
        all_assigned_rows(threads, height) == set_int_range(0, height as int),
        forall|i: usize, j: usize|
            i < threads && j < threads && i != j ==> (#[trigger] assigned_rows(
                threads,
                height,
                i,
            )).disjoint(#[trigger] assigned_rows(threads, height, j)),
{
    let n = threads as int;
    let budget = spec_scanlines_per_thread(height as nat, threads as nat);
    lemma_scanlines_per_thread_is_ceiling(height as nat, threads as nat);
    assert forall|row: int| 0 <= row < height implies all_assigned_rows(threads, height).contains(
        row,
    ) by {
        let i = (row % n) as usize;
        let k = row / n;
        assert(row == k * n + row % n && 0 <= row % n < n && 0 <= k) by (nonlinear_arith)
            requires
                n > 0,
                row >= 0,
                k == row / n,
        ;
        assert(k < budget) by (nonlinear_arith)
            requires
                n > 0,
                k * n <= row,
                row < height,
                height <= budget * n,
        ;
        assert(planned_context(threads, height, i).renders(k));
        assert(assigned_rows(threads, height, i).contains(row));
    }
    assert forall|row: int| all_assigned_rows(threads, height).contains(row) implies 0 <= row
        < height by {
        let i = choose|i: usize|
            i < threads && #[trigger] assigned_rows(threads, height, i).contains(row);
        lemma_assigned_row(threads, height, i, row);
    }
    assert forall|i: usize, j: usize| i < threads && j < threads && i != j implies (
    #[trigger] assigned_rows(threads, height, i)).disjoint(
        #[trigger] assigned_rows(threads, height, j),
    ) by {
        let mine = assigned_rows(threads, height, i);
        let other = assigned_rows(threads, height, j);
        assert forall|row: int| mine.contains(row) implies !other.contains(row) by {
            if other.contains(row) {
                lemma_assigned_row(threads, height, i, row);
                lemma_assigned_row(threads, height, j, row);
            }
        }
    }
}

/// A worker of a pool of at least one reaches a row of its own at each
/// iteration: two iterations that reach the same row are one.
pub proof fn lemma_iterations_reach_distinct_rows(
    context: RenderThreadContext,
    first: int,
    second: int,
)
    requires
        context.threads >= 1,
        context.row_at(first) == context.row_at(second),
    ensures
        first == second,
{
    let n = context.threads as int;
    assert(first == second) by (nonlinear_arith)
        requires
            n > 0,
            first * n == second * n,
    ;
}

/// A row that worker `thread_id` renders lies in the image and is that
/// worker's own: its remainder by the pool size is the worker's position.
pub proof fn lemma_assigned_row(threads: usize, height: usize, thread_id: usize, row: int)
    requires
        thread_id < threads,
        assigned_rows(threads, height, thread_id).contains(row),
    ensures
        0 <= row < height,
        row % (threads as int) == thread_id,
{
    let n = threads as int;
    let context = planned_context(threads, height, thread_id);
    let k = choose|k: int| #[trigger] context.renders(k) && context.row_at(k) == row;
    assert(0 <= k * n) by (nonlinear_arith)
        requires
            0 <= k,
            0 < n,
    ;
    assert((thread_id + k * n) % n == thread_id) by (nonlinear_arith)
        requires
            0 <= thread_id < n,
            0 <= k,
    ;
}

/// The slot of the image buffer that holds the pixel at `col` of `row`: rows
/// follow one another from the bottom of the image, each `width` slots long.
pub open spec fn spec_pixel_index(width: int, row: int, col: int) -> int {
    row * width + col
}

/// The slot of the image buffer that holds the pixel at `col` of `row`.
pub fn pixel_index(width: usize, row: usize, col: usize) -> (index: usize)
    requires
        spec_pixel_index(width as int, row as int, col as int) <= usize::MAX,
    ensures
        index == spec_pixel_index(width as int, row as int, col as int),
{
    row * width + col
}

/// Every pixel of an image has a slot of its own inside the buffer: the slot
/// lies below `width * height`, and the pixel is read back from it as the
/// quotient and the remainder by `width`.
pub proof fn lemma_pixel_index_unique(width: int, height: int, row: int, col: int)
    requires
        0 <= row < height,
        0 <= col < width,
    ensures
        0 <= spec_pixel_index(width, row, col) < width * height,
        spec_pixel_index(width, row, col) / width == row,
        spec_pixel_index(width, row, col) % width == col,
{
    assert(0 <= row * width + col < width * height) by (nonlinear_arith)
        requires
            0 <= row < height,
            0 <= col < width,
    ;
    assert((row * width + col) / width == row && (row * width + col) % width == col)
        by (nonlinear_arith)
        requires
            0 <= row,
            0 <= col < width,
    ;
}

/// The message of a worker for the pixel at `col` of `row`: the slot of the
/// pixel, and the color that the pixel sampler finds for it.
pub fn render_message<S: Scene>(
    params: &RenderParams,
    scene: &S,
    row: usize,
    col: usize,
) -> (message: RenderMessage<S::Color>)
    requires
        col <= params.last_pixel@.0 < usize::MAX,
        spec_pixel_index(params.last_pixel@.0 + 1, row as int, col as int) <= usize::MAX,
    ensures
        message.0 == spec_pixel_index(params.last_pixel@.0 + 1, row as int, col as int),
        forall|pixel: Vec2<usize>|
            pixel@ == (col, row) ==> #[trigger] is_pixel_color(scene, *params, pixel, message.1),
{
    let pixel = Vec2::new(col, row);
    let color = render_pixel(params, scene, pixel);
    proof {
        assert forall|other: Vec2<usize>| other@ == (col, row) implies #[trigger] is_pixel_color(
            scene,
            *params,
            other,
            color,
        ) by {
            pixel.lemma_components_make_the_pair(other);
        }
    }
    RenderMessage(pixel_index(params.last_pixel.x() + 1, row, col), color)
}

/// One pixel of a worker's share: the worker, the iteration at which it
/// reaches the pixel's row, and the pixel's column.
pub struct PixelTask {
    /// The position of the worker in the pool.
    pub thread_id: usize,
    /// The iteration of the worker.
    pub iteration: int,
    /// The column of the pixel.
    pub col: int,
}

impl PixelTask {
    /// Whether the task is one of the worker with `context`, in an image
    /// `width` pixels wide: the worker is this one, it renders a row at the
    /// iteration, and the column is one of the image.
    pub open spec fn of_worker(self, context: RenderThreadContext, width: usize) -> bool {
        &&& self.thread_id == context.thread_id
        &&& context.renders(self.iteration)
        &&& 0 <= self.col < width
    }

    /// The place of the task in the order in which its worker sends: row
    /// after row, and each row from its first column to its last.
    pub open spec fn position(self, width: usize) -> int {
        self.iteration * width + self.col
    }

    /// Whether the task is part of the render, by a planned pool of
    /// `threads` workers, of an image of `width` by `height` pixels: the
    /// worker is one of the pool, and the task is one of that worker as the
    /// plan sets it up.
    pub open spec fn valid(self, threads: usize, width: usize, height: usize) -> bool {
        &&& self.thread_id < threads
        &&& self.of_worker(planned_context(threads, height, self.thread_id), width)
    }

    /// The row of the pixel.
    pub open spec fn row(self, threads: usize, height: usize) -> int {
        planned_context(threads, height, self.thread_id).row_at(self.iteration)
    }

    /// The slot of the image buffer that the pixel fills.
    pub open spec fn slot(self, threads: usize, width: usize, height: usize) -> int {
        spec_pixel_index(width as int, self.row(threads, height), self.col)
    }
}

impl RenderThreadContext {
    /// The task that this worker does at `position` of its sending order.
    pub open spec fn task_at(&self, width: usize, position: int) -> PixelTask {
        PixelTask {
            thread_id: self.thread_id,
            iteration: position / (width as int),
            col: position % (width as int),
        }
    }

    /// A task of this worker has a place of its own in the sending order,
    /// and is the task found at that place.
    pub proof fn lemma_task_has_its_position(&self, width: usize, task: PixelTask)
        requires
            task.of_worker(*self, width),
        ensures
            0 <= task.position(width),
            self.task_at(width, task.position(width)) == task,
    {
        assert(0 <= task.iteration * width) by (nonlinear_arith)
            requires
                0 <= task.iteration,
        ;
        vstd::arithmetic::div_mod::lemma_fundamental_div_mod_converse(
            task.position(width),
            width as int,
            task.iteration,
            task.col,
        );
    }

    /// The pixels of this worker as `(row, col)`, in the order in which the
    /// worker sends them: row after row as `rows` gives them, and each row
    /// from its first column to its last. They are the tasks of this
    /// worker, each once: at every position stands the pixel of the task of
    /// that position, which is a task of this worker, and every task of
    /// this worker has its position in the list.
    pub fn pixels(&self, width: usize) -> (pixels: Vec<(usize, usize)>)
        ensures
            forall|k: int|
                0 <= k < pixels.len() ==> (#[trigger] self.task_at(width, k)).of_worker(
                    *self,
                    width,
                ),
            forall|k: int|
                0 <= k < pixels.len() ==> (#[trigger] pixels[k]).0 == self.row_at(
                    self.task_at(width, k).iteration,
                ),
            forall|k: int|
                0 <= k < pixels.len() ==> (#[trigger] pixels[k]).1 == self.task_at(width, k).col,
            forall|task: PixelTask| #[trigger]
                task.of_worker(*self, width) ==> 0 <= task.position(width) < pixels.len(),
    {
        let rows = self.rows();
        let mut pixels: Vec<(usize, usize)> = Vec::new();
        let mut iteration: usize = 0;
        while iteration < rows.len()
            invariant
                iteration <= rows.len(),
                forall|k: int| #[trigger] self.renders(k) <==> 0 <= k < rows.len(),
                forall|k: int| 0 <= k < rows.len() ==> (#[trigger] rows[k]) == self.row_at(k),
                pixels.len() == iteration * width,
                forall|i: int, c: int|
                    0 <= i < iteration && 0 <= c < width ==> {
                        &&& 0 <= #[trigger] spec_pixel_index(width as int, i, c) < pixels.len()
                        &&& pixels[spec_pixel_index(width as int, i, c)] == (rows[i], c as usize)
                    },
            decreases rows.len() - iteration,
        {
            let row: usize = rows[iteration];
            let mut col: usize = 0;
            while col < width
                invariant
                    iteration < rows.len(),
                    row == rows[iteration as int],
                    col <= width,
                    pixels.len() == iteration * width + col,
                    forall|i: int, c: int|
                        0 <= i < iteration && 0 <= c < width ==> {
                            &&& 0 <= #[trigger] spec_pixel_index(width as int, i, c) < pixels.len()
                            &&& pixels[spec_pixel_index(width as int, i, c)] == (
                                rows[i],
                                c as usize,
                            )
                        },
                    forall|c: int|
                        0 <= c < col ==> {
                            &&& 0 <= #[trigger] spec_pixel_index(width as int, iteration as int, c)
                                < pixels.len()
                            &&& pixels[spec_pixel_index(width as int, iteration as int, c)] == (
                                row,
                                c as usize,
                            )
                        },
                decreases width - col,
            {
                pixels.push((row, col));
                col = col + 1;
            }
            proof {
                assert((iteration + 1) * width == iteration * width + width) by (nonlinear_arith);
            }
            iteration = iteration + 1;
        }
        proof {
            assert forall|k: int| 0 <= k < pixels.len() implies {
                &&& self.task_at(width, k).of_worker(*self, width)
                &&& pixels[k].0 == self.row_at(self.task_at(width, k).iteration)
                &&& pixels[k].1 == self.task_at(width, k).col
            } by {
                let i = k / (width as int);
                let c = k % (width as int);
                assert(width > 0 && k == i * width + c && 0 <= c < width && 0 <= i < rows.len())
                    by (nonlinear_arith)
                    requires
                        0 <= k < rows.len() * width,
                        i == k / (width as int),
                        c == k % (width as int),
                        0 <= width,
                ;
                assert(spec_pixel_index(width as int, i, c) == k);
            }
            assert forall|task: PixelTask| #[trigger]
                task.of_worker(*self, width) implies 0 <= task.position(width) < pixels.len() by {
                assert(0 <= task.iteration * width + task.col < rows.len() * width)
                    by (nonlinear_arith)
                    requires
                        0 <= task.iteration < rows.len(),
                        0 <= task.col < width,
                ;
            }
        }
        pixels
    }
}

/// The pixel of a task is a pixel of the image, and its slot lies inside the
/// buffer.
pub proof fn lemma_task_slot(threads: usize, width: usize, height: usize, task: PixelTask)
    requires
        threads >= 1,
        task.valid(threads, width, height),
    ensures
        0 <= task.row(threads, height) < height,
        task.row(threads, height) % (threads as int) == task.thread_id,
        0 <= task.slot(threads, width, height) < width * height,
{
    lemma_assigned_row(threads, height, task.thread_id, task.row(threads, height));
    lemma_pixel_index_unique(width as int, height as int, task.row(threads, height), task.col);
}

/// Every slot of the image buffer has a sender: the task that is returned
/// is part of the render, and its pixel fills the slot.
pub proof fn lemma_slot_has_sender(threads: usize, width: usize, height: usize, slot: int) -> (task:
    PixelTask)
    requires
        threads >= 1,
        0 <= slot < width * height,
    ensures
        task.valid(threads, width, height),
        task.slot(threads, width, height) == slot,
        task.row(threads, height) == slot / (width as int),
        task.col == slot % (width as int),
{
    let w = width as int;
    let row = slot / w;
    let col = slot % w;
    assert(w > 0 && slot == row * w + col && 0 <= col < w && 0 <= row < height) by (nonlinear_arith)
        requires
            0 <= slot < w * height,
            row == slot / w,
            col == slot % w,
            0 <= w,
    ;
    lemma_rows_partition(threads, height);
    assert(set_int_range(0, height as int).contains(row));
    let sender = choose|i: usize|
        i < threads && #[trigger] assigned_rows(threads, height, i).contains(row);
    let context = planned_context(threads, height, sender);
    let iteration = choose|k: int| #[trigger] context.renders(k) && context.row_at(k) == row;
    PixelTask { thread_id: sender, iteration, col }
}

/// No slot of the image buffer has two senders: two tasks of the render
/// whose pixels fill the same slot are one task.
pub proof fn lemma_slot_has_one_sender(
    threads: usize,
    width: usize,
    height: usize,
    first: PixelTask,
    second: PixelTask,
)
    requires
        threads >= 1,
        first.valid(threads, width, height),
        second.valid(threads, width, height),
        first.slot(threads, width, height) == second.slot(threads, width, height),
    ensures
        first == second,
{
    lemma_task_slot(threads, width, height, first);
    lemma_task_slot(threads, width, height, second);
    lemma_pixel_index_unique(width as int, height as int, first.row(threads, height), first.col);
    lemma_pixel_index_unique(width as int, height as int, second.row(threads, height), second.col);
    lemma_iterations_reach_distinct_rows(
        planned_context(threads, height, first.thread_id),
        first.iteration,
        second.iteration,
    );
}

} // verus!
