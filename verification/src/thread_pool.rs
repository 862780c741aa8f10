//! What a renderer's dispatcher decides: which pieces of the picture to hand
//! out, and where each finished piece belongs, in whatever order the pieces
//! come back.
use vstd::prelude::*;

verus! {

/// One finished pixel: its column and row, and its colour as bytes.
#[derive(Debug, Copy, Clone)]
pub struct Pixel {
    pub p: (usize, usize),
    pub color: (u8, u8, u8),
}

/// The place of the pixel in column `p.0` of row `p.1` in a picture kept row
/// after row.
pub open spec fn slot(p: (usize, usize), width: nat) -> int {
    p.0 + p.1 * width
}

/// Whether a picture of this size has a pixel at `p`.
pub open spec fn inside(p: (usize, usize), width: nat, height: nat) -> bool {
    p.0 < width && p.1 < height
}

/// The picture after one pixel came in: its colour stands at its place. A
/// pixel from outside the picture changes nothing.
pub open spec fn placed(
    image: Seq<(u8, u8, u8)>,
    width: nat,
    height: nat,
    pixel: Pixel,
) -> Seq<(u8, u8, u8)> {
    if inside(pixel.p, width, height) {
        image.update(slot(pixel.p, width), pixel.color)
    } else {
        image
    }
}

/// The picture after all of `arrivals` came in, in that order.
pub open spec fn assembled(
    image: Seq<(u8, u8, u8)>,
    width: nat,
    height: nat,
    arrivals: Seq<Pixel>,
) -> Seq<(u8, u8, u8)>
    decreases arrivals.len(),
{
    if arrivals.len() == 0 {
        image
    } else {
        placed(assembled(image, width, height, arrivals.drop_last()), width, height, arrivals.last())
    }
}

/// The picture after one row came in: the row stands at its place. A row
/// from outside the picture, or one of another length, changes nothing.
pub open spec fn with_row(
    image: Seq<(u8, u8, u8)>,
    width: nat,
    height: nat,
    row_index: nat,
    row: Seq<(u8, u8, u8)>,
) -> Seq<(u8, u8, u8)> {
    if row_index < height && row.len() == width {
        Seq::new(
            image.len(),
            |k: int|
                if row_index * width <= k < row_index * width + width {
                    row[k - row_index * width]
                } else {
                    image[k]
                },
        )
    } else {
        image
    }
}

/// A pixel inside the picture has its place inside it.
pub proof fn lemma_slot_inside(p: (usize, usize), width: nat, height: nat)
    requires
        inside(p, width, height),
    ensures
        0 <= slot(p, width) < width * height,
{
    assert(p.1 * width + width <= height * width) by (nonlinear_arith)
        requires
            p.1 + 1 <= height,
    ;
    assert(height * width == width * height) by (nonlinear_arith);
}

/// Two pixels of one picture share a place only if they are the same pixel.
pub proof fn lemma_slot_one_to_one(p: (usize, usize), q: (usize, usize), width: nat, height: nat)
    requires
        inside(p, width, height),
        inside(q, width, height),
        slot(p, width) == slot(q, width),
    ensures
        p == q,
{
    if p.1 < q.1 {
        assert(p.1 * width + width <= q.1 * width) by (nonlinear_arith)
            requires
                p.1 + 1 <= q.1,
        ;
    } else if q.1 < p.1 {
        assert(q.1 * width + width <= p.1 * width) by (nonlinear_arith)
            requires
                q.1 + 1 <= p.1,
        ;
    }
}

/// Assembling keeps the size of the picture.
pub proof fn lemma_assembled_len(
    image: Seq<(u8, u8, u8)>,
    width: nat,
    height: nat,
    arrivals: Seq<Pixel>,
)
    requires
        image.len() == width * height,
    ensures
        assembled(image, width, height, arrivals).len() == image.len(),
    decreases arrivals.len(),
{
    if arrivals.len() > 0 {
        lemma_assembled_len(image, width, height, arrivals.drop_last());
        if inside(arrivals.last().p, width, height) {
            lemma_slot_inside(arrivals.last().p, width, height);
        }
    }
}

/// Every pixel lands at its own place, in whatever order the pixels come
/// in: where no two arrivals are for the same pixel, the assembled picture
/// holds at the place of each arrival the colour that it brought.
pub proof fn lemma_each_lands(
    image: Seq<(u8, u8, u8)>,
    width: nat,
    height: nat,
    arrivals: Seq<Pixel>,
    k: int,
)
    requires
        image.len() == width * height,
        0 <= k < arrivals.len(),
        inside(arrivals[k].p, width, height),
        forall|a: int, b: int|
            0 <= a < b < arrivals.len() ==> (#[trigger] arrivals[a]).p != (#[trigger] arrivals[b]).p,
    ensures
        assembled(image, width, height, arrivals)[slot(arrivals[k].p, width)] == arrivals[k].color,
    decreases arrivals.len(),
{
    let before = arrivals.drop_last();
    let last = arrivals.last();
    let prior = assembled(image, width, height, before);
    let at = slot(arrivals[k].p, width);
    lemma_assembled_len(image, width, height, before);
    lemma_slot_inside(arrivals[k].p, width, height);
    assert(assembled(image, width, height, arrivals) == placed(prior, width, height, last));
    if k == arrivals.len() - 1 {
        assert(last == arrivals[k]);
        assert(prior.update(at, last.color)[at] == last.color);
    } else {
        assert(before[k] == arrivals[k]);
        assert forall|a: int, b: int| 0 <= a < b < before.len() implies (#[trigger] before[a]).p != (
        #[trigger] before[b]).p by {
            assert(before[a] == arrivals[a]);
            assert(before[b] == arrivals[b]);
        }
        lemma_each_lands(image, width, height, before, k);
        assert(prior[at] == arrivals[k].color);
        if inside(last.p, width, height) {
            lemma_slot_inside(last.p, width, height);
            assert(arrivals[k].p != arrivals[arrivals.len() - 1].p);
            if slot(last.p, width) == at {
                lemma_slot_one_to_one(last.p, arrivals[k].p, width, height);
            }
            assert(prior.update(slot(last.p, width), last.color)[at] == prior[at]);
        }
    }
}

/// A picture under assembly.
pub struct Frame {
    width: usize,
    height: usize,
    image: Vec<(u8, u8, u8)>,
    received: usize,
}

impl Frame {
    #[verifier::type_invariant]
    spec fn inv(&self) -> bool {
        self.image@.len() == self.width * self.height
    }

    /// The number of columns.
    pub closed spec fn spec_width(&self) -> nat {
        self.width as nat
    }

    /// The number of rows.
    pub closed spec fn spec_height(&self) -> nat {
        self.height as nat
    }

    /// The colours so far, row after row from the top.
    pub closed spec fn pixels(&self) -> Seq<(u8, u8, u8)> {
        self.image@
    }

    /// How many pieces were taken in so far, counted up to the largest
    /// number this machine can hold.
    pub closed spec fn spec_received(&self) -> nat {
        self.received as nat
    }

    /// A black picture of this size, or nothing where the number of its
    /// pixels is more than this machine can address.
    pub fn new(width: usize, height: usize) -> (r: Option<Frame>)
        ensures
            r is Some <==> width * height <= usize::MAX,
            r matches Some(f) ==> f.spec_width() == width && f.spec_height() == height
                && f.spec_received() == 0 && f.pixels() == Seq::new(
                (width * height) as nat,
                |k: int| (0u8, 0u8, 0u8),
            ),
    {
        match width.checked_mul(height) {
            None => None,
            Some(count) => {
                let mut image: Vec<(u8, u8, u8)> = Vec::new();
                let mut k: usize = 0;
                while k < count
                    invariant
                        0 <= k <= count,
                        image@ == Seq::new(k as nat, |j: int| (0u8, 0u8, 0u8)),
                    decreases count - k,
                {
                    image.push((0, 0, 0));
                    assert(image@ =~= Seq::new((k + 1) as nat, |j: int| (0u8, 0u8, 0u8)));
                    k += 1;
                }
                Some(Frame { width, height, image, received: 0 })
            },
        }
    }

    /// The number of columns.
    pub fn width(&self) -> (w: usize)
        ensures
            w == self.spec_width(),
    {
        self.width
    }

    /// The number of rows.
    pub fn height(&self) -> (h: usize)
        ensures
            h == self.spec_height(),
    {
        self.height
    }

    /// The pixels to hand out: every column of the first row from the left,
    /// then the second row, and so on.
    pub fn tasks(&self) -> (list: Vec<(usize, usize)>)
        ensures
            list@.len() == self.spec_width() * self.spec_height(),
            forall|i: int, j: int|
                0 <= i < self.spec_width() && 0 <= j < self.spec_height() ==> #[trigger] list@[j
                    * self.spec_width() + i] == (i as usize, j as usize),
    {
        proof {
            use_type_invariant(self);
        }
        let count: usize = self.image.len();
        let mut list: Vec<(usize, usize)> = Vec::new();
        let mut j: usize = 0;
        while j < self.height
            invariant
                0 <= j <= self.height,
                self.width * self.height <= usize::MAX,
                list@.len() == j * self.width,
                forall|a: int, b: int|
                    0 <= a < self.width && 0 <= b < j ==> #[trigger] list@[b * self.width + a] == (
                        a as usize,
                        b as usize,
                    ),
            decreases self.height - j,
        {
            let mut i: usize = 0;
            while i < self.width
                invariant
                    0 <= i <= self.width,
                    0 <= j < self.height,
                    list@.len() == j * self.width + i,
                    forall|a: int, b: int|
                        0 <= a < self.width && 0 <= b < j ==> #[trigger] list@[b * self.width + a]
                            == (a as usize, b as usize),
                    forall|a: int| 0 <= a < i ==> #[trigger] list@[j * self.width + a] == (a as usize, j),
                decreases self.width - i,
            {
                let ghost before = list@;
                list.push((i, j));
                proof {
                    assert forall|a: int, b: int| 0 <= a < self.width && 0 <= b < j implies #[trigger] list@[b
                        * self.width + a] == (a as usize, b as usize) by {
                        assert(b * self.width + self.width <= j * self.width) by (nonlinear_arith)
                            requires
                                b + 1 <= j,
                                0 <= self.width,
                        ;
                        assert(list@[b * self.width + a] == before[b * self.width + a]);
                    }
                    assert forall|a: int| 0 <= a < i + 1 implies #[trigger] list@[j * self.width + a] == (
                        a as usize,
                        j,
                    ) by {
                        if a < i {
                            assert(list@[j * self.width + a] == before[j * self.width + a]);
                        }
                    }
                }
                i += 1;
            }
            proof {
                assert((j + 1) * self.width == j * self.width + self.width) by (nonlinear_arith);
                assert forall|a: int, b: int| 0 <= a < self.width && 0 <= b < j + 1 implies #[trigger] list@[b
                    * self.width + a] == (a as usize, b as usize) by {
                    if b == j {
                        assert(list@[j * self.width + a] == (a as usize, j));
                    }
                }
            }
            j += 1;
        }
        proof {
            assert(self.height * self.width == self.width * self.height) by (nonlinear_arith);
        }
        list
    }

    /// Takes one finished pixel in: its colour is kept at its place, and the
    /// answer is `true`. A pixel from outside the picture is left out, and
    /// the answer is `false`.
    pub fn place(&mut self, pixel: Pixel) -> (kept: bool)
        ensures
            kept == inside(pixel.p, old(self).spec_width(), old(self).spec_height()),
            final(self).pixels() == placed(
                old(self).pixels(),
                old(self).spec_width(),
                old(self).spec_height(),
                pixel,
            ),
            final(self).spec_width() == old(self).spec_width(),
            final(self).spec_height() == old(self).spec_height(),
            final(self).spec_received() == (if kept && old(self).spec_received() < usize::MAX {
                old(self).spec_received() + 1
            } else {
                old(self).spec_received()
            }),
    {
        proof {
            use_type_invariant(&*self);
        }
        let count: usize = self.image.len();
        if pixel.p.0 < self.width && pixel.p.1 < self.height {
            proof {
                lemma_slot_inside(pixel.p, self.width as nat, self.height as nat);
                assert(0 <= pixel.p.1 * self.width) by (nonlinear_arith)
                    requires
                        0 <= pixel.p.1,
                        0 <= self.width,
                ;
            }
            let at: usize = pixel.p.0 + pixel.p.1 * self.width;
            self.image[at] = pixel.color;
            if self.received < usize::MAX {
                self.received += 1;
            }
            true
        } else {
            false
        }
    }

    /// Takes one finished row in, likewise.
    pub fn place_row(&mut self, row_index: usize, row: &Vec<(u8, u8, u8)>) -> (kept: bool)
        ensures
            kept == (row_index < old(self).spec_height() && row@.len() == old(self).spec_width()),
            final(self).pixels() == with_row(
                old(self).pixels(),
                old(self).spec_width(),
                old(self).spec_height(),
                row_index as nat,
                row@,
            ),
            final(self).spec_width() == old(self).spec_width(),
            final(self).spec_height() == old(self).spec_height(),
            final(self).spec_received() == (if kept && old(self).spec_received() < usize::MAX {
                old(self).spec_received() + 1
            } else {
                old(self).spec_received()
            }),
    {
        proof {
            use_type_invariant(&*self);
        }
        let count: usize = self.image.len();
        if row_index < self.height && row.len() == self.width {
            proof {
                assert(row_index * self.width + self.width <= self.height * self.width)
                    by (nonlinear_arith)
                    requires
                        row_index + 1 <= self.height,
                        0 <= self.width,
                ;
                assert(self.height * self.width == self.width * self.height) by (nonlinear_arith);
                assert(0 <= row_index * self.width) by (nonlinear_arith)
                    requires
                        0 <= row_index,
                        0 <= self.width,
                ;
            }
            let base: usize = row_index * self.width;
            let mut i: usize = 0;
            while i < self.width
                invariant
                    0 <= i <= self.width,
                    row@.len() == self.width,
                    base == row_index * self.width,
                    base + self.width <= self.image@.len(),
                    self.image@.len() == old(self).image@.len(),
                    self.image@.len() == count,
                    self.width == old(self).width,
                    self.height == old(self).height,
                    self.received == old(self).received,
                    self.image@.len() == self.width * self.height,
                    forall|k: int|
                        0 <= k < self.image@.len() ==> #[trigger] self.image@[k] == (if base <= k < base
                            + i {
                            row@[k - base]
                        } else {
                            old(self).image@[k]
                        }),
                decreases self.width - i,
            {
                self.image[base + i] = row[i];
                i += 1;
            }
            if self.received < usize::MAX {
                self.received += 1;
            }
            assert(self.image@ =~= with_row(
                old(self).image@,
                self.width as nat,
                self.height as nat,
                row_index as nat,
                row@,
            ));
            true
        } else {
            false
        }
    }

    /// How many pieces were taken in so far.
    pub fn received(&self) -> (n: usize)
        ensures
            n == self.spec_received(),
    {
        self.received
    }

    /// The colours so far, row after row from the top.
    pub fn image(&self) -> (image: &Vec<(u8, u8, u8)>)
        ensures
            image@ == self.pixels(),
    {
        &self.image
    }
}

/// What a worker is doing.
#[derive(Debug, Clone, Copy, PartialEq, Eq)]
pub enum Worker {
    /// It waits for a pixel to work on.
    Waiting,
    /// It works on the pixel in this column and row.
    Rendering { task: (usize, usize) },
    /// It has stopped for good.
    Exited,
}

/// What happens to a worker.
#[derive(Debug, Clone, Copy, PartialEq, Eq)]
pub enum Event {
    /// A pixel to work on came in.
    Task((usize, usize)),
    /// No more pixels will come in.
    Closed,
    /// The colour of the pixel worked on is known.
    Rendered((u8, u8, u8)),
}

/// What a worker does next.
#[derive(Debug, Clone, Copy)]
pub enum Action {
    /// Wait for the next pixel to work on.
    Wait,
    /// Work out the colour of this pixel.
    Render((usize, usize)),
    /// Hand this finished pixel back and wait for the next.
    Send(Pixel),
    /// Stop.
    Exit,
}

impl Worker {
    /// What becomes of a worker when `event` happens, and what it does
    /// then. A waiting worker takes the pixel that comes in and works on it,
    /// or stops when no more will come. A working worker hands back the
    /// pixel it worked on with the colour found, and waits again. What
    /// cannot happen to a worker in its state changes nothing: it goes on
    /// with what it was doing. A worker that has stopped stays so.
    pub open spec fn next(self, event: Event) -> (Worker, Action) {
        match (self, event) {
            (Worker::Waiting, Event::Task(task)) => (Worker::Rendering { task }, Action::Render(task)),
            (Worker::Waiting, Event::Closed) => (Worker::Exited, Action::Exit),
            (Worker::Waiting, Event::Rendered(_)) => (Worker::Waiting, Action::Wait),
            (Worker::Rendering { task }, Event::Rendered(color)) => (
                Worker::Waiting,
                Action::Send(Pixel { p: task, color }),
            ),
            (Worker::Rendering { task }, _) => (Worker::Rendering { task }, Action::Render(task)),
            (Worker::Exited, _) => (Worker::Exited, Action::Exit),
        }
    }

    /// What becomes of the worker when `event` happens, and what it does
    /// then.
    pub fn step(self, event: Event) -> (r: (Worker, Action))
        ensures
            r == self.next(event),
    {
        match self {
            Worker::Waiting => match event {
                Event::Task(task) => (Worker::Rendering { task }, Action::Render(task)),
                Event::Closed => (Worker::Exited, Action::Exit),
                Event::Rendered(_) => (Worker::Waiting, Action::Wait),
            },
            Worker::Rendering { task } => match event {
                Event::Rendered(color) => (Worker::Waiting, Action::Send(Pixel { p: task, color })),
                _ => (Worker::Rendering { task }, Action::Render(task)),
            },
            Worker::Exited => (Worker::Exited, Action::Exit),
        }
    }
}

/// A worker hands back only pixels that it was given, each with the colour
/// found for it: whatever it sends is for the pixel it was working on.
pub proof fn lemma_worker_sends_its_task(worker: Worker, event: Event)
    ensures
        worker.next(event).1 matches Action::Send(pixel) ==> worker == (Worker::Rendering {
            task: pixel.p,
        }) && event == Event::Rendered(pixel.color),
        worker.next(event).0 is Exited <==> worker is Exited || (worker is Waiting && event is Closed),
{
}

} // verus!
