//! The collector: the single receiver that writes every finished pixel into
//! its slot of the image buffer and counts down the scanlines still open.

use vstd::prelude::*;
use vstd::set_lib::set_int_range;

verus! {

/// One finished pixel on its way from a worker to the collector: the slot of
/// the image buffer that it fills, then its color.
#[derive(Clone, Copy, Debug)]
pub struct RenderMessage<C>(pub usize, pub C);

/// Whether the slot `index` is the last one of its scanline, in a buffer whose
/// scanlines are `width` slots long.
pub open spec fn closes_scanline(width: nat, index: int) -> bool {
    width > 0 && index % (width as int) == width - 1
}

/// What a collector holds, as mathematical values.
pub struct CollectorView<C> {
    /// The image buffer, one color for each slot.
    pub image: Seq<C>,
    /// The length of a scanline.
    pub width: nat,
    /// The scanlines whose last slot has not been filled yet.
    pub scanlines_remaining: nat,
}

impl<C> CollectorView<C> {
    /// The collector before the first message: every slot holds `fill`, and
    /// every scanline is open.
    pub open spec fn start(width: nat, height: nat, fill: C) -> Self {
        CollectorView {
            image: Seq::new(width * height, |i: int| fill),
            width,
            scanlines_remaining: height,
        }
    }

    /// Whether a message for the slot `index` can be received: the slot
    /// exists, and a scanline is still open if the message closes one.
    pub open spec fn accepts(self, index: int) -> bool {
        &&& 0 <= index < self.image.len()
        &&& closes_scanline(self.width, index) ==> self.scanlines_remaining > 0
    }

    /// The collector after a message for the slot `index`: the slot holds
    /// `color`, and one scanline fewer is open if the slot is the last of its
    /// scanline.
    pub open spec fn receive(self, index: int, color: C) -> Self {
        CollectorView {
            image: self.image.update(index, color),
            width: self.width,
            scanlines_remaining: if closes_scanline(self.width, index) {
                (self.scanlines_remaining - 1) as nat
            } else {
                self.scanlines_remaining
            },
        }
    }

    /// The collector after `messages`, received in their order.
    pub open spec fn receive_all(self, messages: Seq<RenderMessage<C>>) -> Self
        decreases messages.len(),
    {
        if messages.len() == 0 {
            self
        } else {
            self.receive_all(messages.drop_last()).receive(
                messages.last().0 as int,
                messages.last().1,
            )
        }
    }

    /// Whether each of `messages` can be received when its turn comes.
    pub open spec fn accepts_all(self, messages: Seq<RenderMessage<C>>) -> bool
        decreases messages.len(),
    {
        messages.len() == 0 || {
            &&& self.accepts_all(messages.drop_last())
            &&& self.receive_all(messages.drop_last()).accepts(messages.last().0 as int)
        }
    }
}

/// The receiving end of a render: the image buffer, and the count of the
/// scanlines still open, which is there to be displayed.
pub struct Collector<C> {
    image: Vec<C>,
    width: usize,
    scanlines_remaining: usize,
}

impl<C> View for Collector<C> {
    type V = CollectorView<C>;

    closed spec fn view(&self) -> CollectorView<C> {
        CollectorView {
            image: self.image@,
            width: self.width as nat,
            scanlines_remaining: self.scanlines_remaining as nat,
        }
    }
}

impl<C> Collector<C> {
    /// A collector for an image of `width` by `height` pixels, every slot
    /// filled with `fill` until its pixel arrives.
    pub fn new(width: usize, height: usize, fill: C) -> (collector: Self) where C: Copy
        requires
            width * height <= usize::MAX,
        ensures
            collector@ == CollectorView::start(width as nat, height as nat, fill),
    {
        let pixels: usize = width * height;
        let mut image: Vec<C> = Vec::new();
        let mut filled: usize = 0;
        while filled < pixels
            invariant
                filled <= pixels,
                image.len() == filled,
                forall|i: int| 0 <= i < filled ==> (#[trigger] image[i]) == fill,
            decreases pixels - filled,
        {
            image.push(fill);
            filled = filled + 1;
        }
        assert(image@ =~= Seq::new((width * height) as nat, |i: int| fill));
        Collector { image, width, scanlines_remaining: height }
    }

    /// The number of messages that a complete render delivers: one for each
    /// slot of the image buffer.
    pub fn expected_messages(&self) -> (count: usize)
        ensures
            count == self@.image.len(),
    {
        self.image.len()
    }

    /// The scanlines whose last slot has not been filled yet.
    pub fn scanlines_remaining(&self) -> (remaining: usize)
        ensures
            remaining == self@.scanlines_remaining,
    {
        self.scanlines_remaining
    }

    /// Whether the slot `index` is the last one of its scanline.
    pub fn closes_scanline(&self, index: usize) -> (closes: bool)
        ensures
            closes == closes_scanline(self@.width, index as int),
    {
        self.width > 0 && index % self.width == self.width - 1
    }

    /// Whether `message` can be received: its slot exists, and a scanline is
    /// still open if the message closes one.
    pub fn accepts(&self, message: &RenderMessage<C>) -> (accepted: bool)
        ensures
            accepted == self@.accepts(message.0 as int),
    {
        message.0 < self.image.len() && (!self.closes_scanline(message.0)
            || self.scanlines_remaining > 0)
    }

    /// Writes the color of `message` into its slot. Where the slot is the
    /// last of its scanline, one scanline fewer is open, and the new count is
    /// returned for display. The count never grows.
    pub fn receive(&mut self, message: RenderMessage<C>) -> (progress: Option<usize>)
        requires
            old(self)@.accepts(message.0 as int),
        ensures
            final(self)@ == old(self)@.receive(message.0 as int, message.1),
            final(self)@.scanlines_remaining <= old(self)@.scanlines_remaining,
            progress == if closes_scanline(old(self)@.width, message.0 as int) {
                Some(final(self)@.scanlines_remaining as usize)
            } else {
                None
            },
    {
        let RenderMessage(index, color) = message;
        self.image.set(index, color);
        if self.closes_scanline(index) {
            self.scanlines_remaining = self.scanlines_remaining - 1;
            Some(self.scanlines_remaining)
        } else {
            None
        }
    }

    /// Hands the image over in the order in which it is written out: from the
    /// last slot of the buffer to the first.
    pub fn into_emission_order(self) -> (pixels: Vec<C>) where C: Copy
        ensures
            pixels@ == self@.image.reverse(),
    {
        let count: usize = self.image.len();
        let mut pixels: Vec<C> = Vec::new();
        let mut emitted: usize = 0;
        while emitted < count
            invariant
                count == self.image.len(),
                emitted <= count,
                pixels.len() == emitted,
                forall|i: int|
                    0 <= i < emitted ==> (#[trigger] pixels[i]) == self.image[count - 1 - i],
            decreases count - emitted,
        {
            pixels.push(self.image[count - 1 - emitted]);
            emitted = emitted + 1;
        }
        pixels
    }
}

/// The slots that `messages` fill, in the order of the messages.
pub open spec fn slots_of<C>(messages: Seq<RenderMessage<C>>) -> Seq<int> {
    Seq::new(messages.len(), |i: int| messages[i].0 as int)
}

/// How many of `slots` are the last of their scanline.
pub open spec fn closing_count(width: nat, slots: Seq<int>) -> nat
    decreases slots.len(),
{
    if slots.len() == 0 {
        0
    } else {
        closing_count(width, slots.drop_last()) + if closes_scanline(width, slots.last()) {
            1nat
        } else {
            0nat
        }
    }
}

/// The slots of an image of `width` by `height` pixels that are the last of
/// their scanline.
spec fn closing_slots(width: nat, height: nat) -> Set<int> {
    set_int_range(0, (width * height) as int).filter(|slot: int| closes_scanline(width, slot))
}

proof fn lemma_closing_slots_len(width: nat, height: nat)
    requires
        width > 0,
    ensures
        closing_slots(width, height).finite(),
        closing_slots(width, height).len() == height,
    decreases height,
{
    if height == 0 {
        assert(width * height == 0) by (nonlinear_arith)
            requires
                height == 0,
        ;
        assert(closing_slots(width, height) =~= Set::empty());
    } else {
        let below = (height - 1) as nat;
        lemma_closing_slots_len(width, below);
        let last = width * height - 1;
        assert(width * height == width * below + width) by (nonlinear_arith)
            requires
                below == height - 1,
        ;
        assert(width * below == below * width) by (nonlinear_arith);
        vstd::arithmetic::div_mod::lemma_fundamental_div_mod_converse(
            last,
            width as int,
            below as int,
            width - 1,
        );
        assert forall|slot: int| width * below <= slot < width * height && closes_scanline(
            width,
            slot,
        ) implies slot == last by {
            vstd::arithmetic::div_mod::lemma_fundamental_div_mod_converse(
                slot,
                width as int,
                below as int,
                slot - width * below,
            );
        }
        assert(closing_slots(width, height) =~= closing_slots(width, below).insert(last));
    }
}

proof fn lemma_closing_count_is_set_len(width: nat, slots: Seq<int>)
    requires
        slots.no_duplicates(),
        forall|i: int| 0 <= i < slots.len() ==> 0 <= #[trigger] slots[i],
    ensures
        slots.to_set().filter(|slot: int| closes_scanline(width, slot)).finite(),
        closing_count(width, slots) == slots.to_set().filter(
            |slot: int| closes_scanline(width, slot),
        ).len(),
    decreases slots.len(),
{
    broadcast use vstd::seq_lib::seq_to_set_is_finite;

    let closes = |slot: int| closes_scanline(width, slot);
    if slots.len() == 0 {
        assert(slots.to_set().filter(closes) =~= Set::empty());
    } else {
        let rest = slots.drop_last();
        let last = slots.last();
        lemma_closing_count_is_set_len(width, rest);
        assert forall|slot: int|
            slots.to_set().contains(slot) <==> rest.to_set().contains(slot) || slot == last by {
            if slots.to_set().contains(slot) {
                let i = choose|i: int| 0 <= i < slots.len() && slots[i] == slot;
                if i < slots.len() - 1 {
                    assert(rest[i] == slot);
                }
            }
        }
        if closes(last) {
            assert(slots.to_set().filter(closes) =~= rest.to_set().filter(closes).insert(last));
        } else {
            assert(slots.to_set().filter(closes) =~= rest.to_set().filter(closes));
        }
    }
}

/// Among slots of one image, no two of them the same, at most as many close
/// a scanline as the image has scanlines; and where every slot of the image
/// is among them, exactly as many.
pub proof fn lemma_closing_count_bound(width: nat, height: nat, slots: Seq<int>)
    requires
        width > 0,
        slots.no_duplicates(),
        forall|i: int| 0 <= i < slots.len() ==> 0 <= #[trigger] slots[i] < width * height,
    ensures
        closing_count(width, slots) <= height,
        slots.len() == width * height ==> closing_count(width, slots) == height,
{
    broadcast use vstd::seq_lib::seq_to_set_is_finite;

    let closes = |slot: int| closes_scanline(width, slot);
    let all = set_int_range(0, (width * height) as int);
    lemma_closing_count_is_set_len(width, slots);
    lemma_closing_slots_len(width, height);
    vstd::set_lib::lemma_int_range(0, (width * height) as int);
    vstd::set_lib::lemma_len_subset(slots.to_set().filter(closes), closing_slots(width, height));
    if slots.len() == width * height {
        slots.unique_seq_to_set();
        vstd::set_lib::lemma_subset_equality(slots.to_set(), all);
    }
}

proof fn lemma_collects_prefix<C>(
    width: nat,
    height: nat,
    fill: C,
    messages: Seq<RenderMessage<C>>,
    taken: nat,
)
    requires
        taken <= messages.len(),
        slots_of(messages).no_duplicates(),
        forall|i: int|
            0 <= i < messages.len() ==> #[trigger] slots_of(messages)[i] < width * height,
    ensures
        ({
            let start = CollectorView::start(width, height, fill);
            let prefix = messages.take(taken as int);
            let after = start.receive_all(prefix);
            &&& start.accepts_all(prefix)
            &&& after.image.len() == width * height
            &&& after.width == width
            &&& after.scanlines_remaining == height - closing_count(width, slots_of(prefix))
            &&& forall|i: int|
                0 <= i < taken ==> after.image[(#[trigger] messages[i]).0 as int] == messages[i].1
        }),
    decreases taken,
{
    let slots = slots_of(messages);
    let prefix = messages.take(taken as int);
    if taken > 0 {
        let before = (taken - 1) as nat;
        lemma_collects_prefix(width, height, fill, messages, before);
        assert(prefix.drop_last() =~= messages.take(before as int));
        assert(slots_of(prefix) =~= slots.take(taken as int));
        assert(slots_of(prefix).drop_last() =~= slots_of(messages.take(before as int)));
        assert(width > 0) by (nonlinear_arith)
            requires
                0 <= slots[before as int] < width * height,
        ;
        lemma_closing_count_bound(width, height, slots_of(prefix));
        let after = CollectorView::start(width, height, fill).receive_all(prefix);
        assert forall|i: int| 0 <= i < taken implies after.image[(#[trigger] messages[i]).0 as int]
            == messages[i].1 by {
            assert(i < before ==> slots[i] != slots[before as int]);
        }
    }
}

/// A render in which every slot of the image arrives exactly once fills the
/// whole image: each message can be received when its turn comes, whatever
/// the order; afterwards every slot holds the color of its own message; and
/// no scanline is left open.
pub proof fn lemma_collects_every_pixel<C>(
    width: nat,
    height: nat,
    fill: C,
    messages: Seq<RenderMessage<C>>,
)
    requires
        messages.len() == width * height,
        slots_of(messages).no_duplicates(),
        forall|i: int|
            0 <= i < messages.len() ==> #[trigger] slots_of(messages)[i] < width * height,
    ensures
        ({
            let start = CollectorView::start(width, height, fill);
            let after = start.receive_all(messages);
            &&& start.accepts_all(messages)
            &&& after.image.len() == width * height
            &&& forall|i: int|
                0 <= i < messages.len() ==> after.image[(#[trigger] messages[i]).0 as int]
                    == messages[i].1
            &&& width > 0 ==> after.scanlines_remaining == 0
        }),
{
    lemma_collects_prefix(width, height, fill, messages, messages.len());
    assert(messages.take(messages.len() as int) =~= messages);
    if width > 0 {
        lemma_closing_count_bound(width, height, slots_of(messages));
    }
}

} // verus!
