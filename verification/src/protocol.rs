//! The render as a whole: what the workers of a planned pool send, taken
//! together, is what the collector needs to fill the image, and the image
//! is written out top row first.

use vstd::prelude::*;
use vstd::set_lib::set_int_range;
use crate::collector::lemma_collects_every_pixel;
use crate::collector::slots_of;
use crate::collector::CollectorView;
use crate::collector::RenderMessage;
use crate::dispatch::lemma_slot_has_one_sender;
use crate::dispatch::lemma_slot_has_sender;
use crate::dispatch::lemma_pixel_index_unique;
use crate::dispatch::lemma_task_slot;
use crate::dispatch::spec_pixel_index;
use crate::dispatch::PixelTask;

verus! {

/// A render by a planned pool fills the image. Where every task of the pool
/// is done once and sends its message, then, whatever the order in which
/// the messages arrive: there is one message for each slot of the image,
/// the collector can receive each of them when its turn comes, afterwards
/// every slot holds the color that the task of its pixel sent, and no
/// scanline is left open.
pub proof fn lemma_render_fills_image<C>(
    threads: usize,
    width: usize,
    height: usize,
    fill: C,
    tasks: Seq<PixelTask>,
    messages: Seq<RenderMessage<C>>,
)
    requires
        threads >= 1,
        tasks.len() == messages.len(),
        tasks.no_duplicates(),
        forall|i: int| 0 <= i < tasks.len() ==> (#[trigger] tasks[i]).valid(threads, width, height),
        forall|i: int|
            0 <= i < tasks.len() ==> #[trigger] slots_of(messages)[i] == tasks[i].slot(
                threads,
                width,
                height,
            ),
        forall|task: PixelTask|
            #[trigger] task.valid(threads, width, height) ==> tasks.contains(task),
    ensures
        messages.len() == width * height,
        ({
            let start = CollectorView::start(width as nat, height as nat, fill);
            let after = start.receive_all(messages);
            &&& start.accepts_all(messages)
            &&& forall|i: int|
                0 <= i < tasks.len() ==> after.image[(#[trigger] tasks[i]).slot(
                    threads,
                    width,
                    height,
                )] == messages[i].1
            &&& width > 0 ==> after.scanlines_remaining == 0
        }),
{
    let slots = slots_of(messages);
    let all = set_int_range(0, width * height);
    assert forall|i: int, j: int| 0 <= i < j < slots.len() implies slots[i] != slots[j] by {
        if slots[i] == slots[j] {
            lemma_slot_has_one_sender(threads, width, height, tasks[i], tasks[j]);
        }
    }
    assert forall|i: int| 0 <= i < slots.len() implies #[trigger] slots[i] < width * height by {
        lemma_task_slot(threads, width, height, tasks[i]);
    }
    assert(slots.to_set() =~= all) by {
        assert forall|slot: int| all.contains(slot) implies slots.to_set().contains(slot) by {
            let task = lemma_slot_has_sender(threads, width, height, slot);
            let i = choose|i: int| 0 <= i < tasks.len() && tasks[i] == task;
            assert(slots[i] == slot);
        }
        assert forall|slot: int| slots.to_set().contains(slot) implies all.contains(slot) by {
            let i = choose|i: int| 0 <= i < slots.len() && slots[i] == slot;
            assert(slots[i] < width * height);
        }
    }
    slots.unique_seq_to_set();
    vstd::set_lib::lemma_int_range(0, width * height);
    lemma_collects_every_pixel(width as nat, height as nat, fill, messages);
    let after = CollectorView::start(width as nat, height as nat, fill).receive_all(messages);
    assert forall|i: int| 0 <= i < tasks.len() implies after.image[(#[trigger] tasks[i]).slot(
        threads,
        width,
        height,
    )] == messages[i].1 by {
        assert(slots[i] == messages[i].0);
    }
}

/// Written out from its last slot to its first, the image comes out top
/// row first, and each row from its last column to its first: the pixel at
/// `col` of `row` is written where a buffer counted from the top and from
/// the right would hold it.
pub proof fn lemma_emission_is_top_to_bottom<C>(
    image: Seq<C>,
    width: int,
    height: int,
    row: int,
    col: int,
)
    requires
        image.len() == width * height,
        0 <= row < height,
        0 <= col < width,
    ensures
        ({
            let written = spec_pixel_index(width, height - 1 - row, width - 1 - col);
            &&& 0 <= written < image.len()
            &&& written / width == height - 1 - row
            &&& image.reverse()[written] == image[spec_pixel_index(width, row, col)]
        }),
{
    lemma_pixel_index_unique(width, height, height - 1 - row, width - 1 - col);
    lemma_pixel_index_unique(width, height, row, col);
    let written = (height - 1 - row) * width + (width - 1 - col);
    assert(written == width * height - 1 - (row * width + col)) by (nonlinear_arith)
        requires
            written == (height - 1 - row) * width + (width - 1 - col),
    ;
}

} // verus!
