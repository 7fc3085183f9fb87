//! The order of work in a render.

use vstd::prelude::*;
use crate::camera::Camera;
use crate::timer::percent_done;
use crate::timer::Timer;

verus! {

/// What a renderer is to do next.
#[derive(Clone, Copy, Debug, PartialEq, Eq, Structural)]
pub enum Step {
    /// A new row begins: report that `percent` of the rows are done.
    Progress { percent: u8 },
    /// Send one more ray through pixel (`i`, `j`) and add its light to the
    /// sum for that pixel.
    Sample { i: u32, j: u32 },
    /// The sum is complete: store its average at `index` of the buffer and
    /// begin a new sum.
    Store { index: usize },
    /// The last row is finished, and so is the render.
    Done,
}

/// Where a render stands: in an image of `width` by `height` pixels with
/// `samples` samples each, `row` rows are finished, `col` pixels of the
/// current row are stored, `sample` samples of the current pixel are taken,
/// and `ticked` tells whether the current row has been announced.
#[derive(Clone, Copy, Debug, PartialEq, Eq, Structural)]
pub struct Cursor {
    pub width: u32,
    pub height: u32,
    pub samples: u32,
    pub row: u32,
    pub col: u32,
    pub sample: u32,
    pub ticked: bool,
}

/// A render in progress: it says what to do next, one step at a time.
///
/// The steps of a row are its announcement and then, pixel by pixel from
/// the left, the samples of a pixel followed by its store. Rows come from
/// the top, and after the last comes `Done`.
#[derive(Clone, Copy, Debug)]
pub struct Render {
    cursor: Cursor,
    timer: Timer,
}

impl Cursor {
    /// Whether the cursor stands somewhere a render can get to.
    pub open spec fn wf(self) -> bool {
        &&& self.row <= self.height
        &&& self.col <= self.width
        &&& self.sample <= self.samples
        &&& self.ticked ==> self.row < self.height
        &&& !self.ticked ==> self.col == 0 && self.sample == 0
        &&& self.col == self.width ==> self.sample == 0
        &&& self.width * self.height <= usize::MAX
    }

    /// The cursor before the first step.
    pub open spec fn start(width: u32, height: u32, samples: u32) -> Cursor {
        Cursor { width, height, samples, row: 0, col: 0, sample: 0, ticked: false }
    }

    /// The same place, counted from the next row when the current one is
    /// complete.
    pub open spec fn settled(self) -> Cursor {
        if self.ticked && self.col == self.width {
            Cursor { row: (self.row + 1) as u32, col: 0, ticked: false, ..self }
        } else {
            self
        }
    }

    /// What is to be done at this place.
    pub open spec fn step(self) -> Step {
        let c = self.settled();
        if c.row >= c.height {
            Step::Done
        } else if !c.ticked {
            Step::Progress {
                percent: percent_done(c.height as nat, (c.height - c.row) as nat) as u8,
            }
        } else if c.sample < c.samples {
            Step::Sample { i: c.col, j: c.row }
        } else {
            Step::Store { index: (c.row * c.width + c.col) as usize }
        }
    }

    /// Where the render stands once that is done.
    pub open spec fn after(self) -> Cursor {
        let c = self.settled();
        if c.row >= c.height {
            c
        } else if !c.ticked {
            Cursor { ticked: true, ..c }
        } else if c.sample < c.samples {
            Cursor { sample: (c.sample + 1) as u32, ..c }
        } else {
            Cursor { sample: 0, col: (c.col + 1) as u32, ..c }
        }
    }

    /// Where the render stands after the next `n` steps.
    pub open spec fn after_steps(self, n: nat) -> Cursor
        decreases n,
    {
        if n == 0 {
            self
        } else {
            self.after_steps((n - 1) as nat).after()
        }
    }

    /// The number of pixels stored so far.
    pub open spec fn stored(self) -> int {
        self.row * self.width + self.col
    }

    /// The number of steps in a row: its announcement, and for each pixel
    /// its samples and its store.
    pub open spec fn row_steps(self) -> int {
        1 + self.width * (self.samples + 1)
    }

    /// The number of steps taken so far.
    pub open spec fn position(self) -> int {
        self.row * self.row_steps() + (if self.ticked {
            1int
        } else {
            0int
        }) + self.col * (self.samples + 1) + self.sample
    }

    /// The number of steps in the whole render, short of `Done`.
    pub open spec fn total(self) -> int {
        self.height * self.row_steps()
    }
}

impl Render {
    #[verifier::type_invariant]
    spec fn consistent(self) -> bool {
        &&& self.cursor.wf()
        &&& self.timer.period() == self.cursor.height
        &&& self.timer.delta() == 1
        &&& self.timer.time_left() == self.cursor.height - self.cursor.row - if self.cursor.ticked {
            1int
        } else {
            0int
        }
    }

    /// Where the render stands.
    pub closed spec fn view(&self) -> Cursor {
        self.cursor
    }

    /// Where the render stands.
    pub fn cursor(&self) -> (c: Cursor)
        ensures
            c == self@,
            c.wf(),
    {
        proof {
            use_type_invariant(self);
        }
        self.cursor
    }

    /// Says what to do next, and moves on.
    pub fn next(&mut self) -> (step: Step)
        ensures
            step == old(self)@.step(),
            final(self)@ == old(self)@.after(),
    {
        proof {
            use_type_invariant(&*self);
        }
        let ghost before = self.cursor;
        let mut c = self.cursor;
        let mut timer = self.timer;
        if c.ticked && c.col == c.width {
            c = Cursor { row: c.row + 1, col: 0, ticked: false, ..c };
        }
        assert(c == before.settled());
        let step;
        if c.row >= c.height {
            step = Step::Done;
        } else if !c.ticked {
            let tick = timer.tick();
            c.ticked = true;
            step = Step::Progress { percent: tick.percent };
        } else if c.sample < c.samples {
            step = Step::Sample { i: c.col, j: c.row };
            c.sample = c.sample + 1;
        } else {
            proof {
                lemma_pixel_lies_in_image(c);
            }
            let index: usize = c.row as usize * c.width as usize + c.col as usize;
            step = Step::Store { index };
            c.sample = 0;
            c.col = c.col + 1;
        }
        assert(c == before.after());
        *self = Render { cursor: c, timer };
        step
    }
}

impl Camera {
    /// Begins a render of the camera's image, or gives `None` when the image
    /// has more pixels than a buffer can hold.
    pub fn render(&self) -> (r: Option<Render>)
        ensures
            r is Some <==> self.spec_pixel_count() <= usize::MAX,
            r matches Some(render) ==> render@ == Cursor::start(
                self.image_width,
                self.image_height,
                self.samples_per_pixel,
            ),
    {
        if self.pixel_count().is_none() {
            return None;
        }
        let mut timer = Timer::new(self.image_height as usize, 1);
        timer.wind_up();
        let cursor = Cursor {
            width: self.image_width,
            height: self.image_height,
            samples: self.samples_per_pixel,
            row: 0,
            col: 0,
            sample: 0,
            ticked: false,
        };
        Some(Render { cursor, timer })
    }
}

/// The pixel at which a settled cursor stands mid-row lies in the image, and
/// so does its place in the buffer.
proof fn lemma_pixel_lies_in_image(c: Cursor)
    requires
        c.wf(),
        c.ticked,
        c.col < c.width,
    ensures
        0 <= c.row * c.width + c.col < c.width * c.height,
        c.row * c.width >= 0,
{
    let w = c.width as int;
    let h = c.height as int;
    let row = c.row as int;
    let col = c.col as int;
    assert(row * w + col < w * h && row * w >= 0) by (nonlinear_arith)
        requires
            0 <= row < h,
            0 <= col < w,
    ;
}

/// A step leaves the cursor somewhere a render can get to, in the same
/// image.
pub proof fn lemma_step_keeps_shape(c: Cursor)
    requires
        c.wf(),
    ensures
        c.after().wf(),
        c.after().width == c.width,
        c.after().height == c.height,
        c.after().samples == c.samples,
{
}

/// Every step but `Done` is one step further, and `Done` comes exactly when
/// all the steps of all the rows are taken.
pub proof fn lemma_steps_are_counted(c: Cursor)
    requires
        c.wf(),
    ensures
        0 <= c.position() <= c.total(),
        c.step() == Step::Done <==> c.position() == c.total(),
        c.step() != Step::Done ==> c.after().position() == c.position() + 1,
        c.step() == Step::Done ==> c.after().position() == c.position(),
{
    let s = c.settled();
    let r = c.row_steps();
    let w = c.width as int;
    let h = c.height as int;
    let n = c.samples as int;
    let row = c.row as int;
    assert((row + 1) * r == row * r + r) by (nonlinear_arith);
    assert(0 * (n + 1) == 0) by (nonlinear_arith);
    if c.ticked && c.col == c.width {
        assert(c.col * (c.samples + 1) == w * (n + 1));
        assert(s.row == row + 1 && s.col == 0 && s.sample == 0 && !s.ticked);
        assert(s.row_steps() == r);
        assert(c.position() == row * r + 1 + w * (n + 1));
        assert(s.position() == (row + 1) * r + 0 * (n + 1));
    }
    assert(s.position() == c.position());
    let srow = s.row as int;
    let scol = s.col as int;
    let ssample = s.sample as int;
    assert(0 <= srow * r && 0 <= scol * (n + 1) && 0 <= w * (n + 1)) by (nonlinear_arith)
        requires
            0 <= srow,
            0 <= scol,
            0 <= w,
            0 <= n,
            r == 1 + w * (n + 1),
    ;
    assert((scol + 1) * (n + 1) == scol * (n + 1) + n + 1) by (nonlinear_arith);
    if srow < h {
        assert((srow + 1) * r <= h * r && (srow + 1) * r == srow * r + r) by (nonlinear_arith)
            requires
                srow + 1 <= h,
                0 <= r,
        ;
        if s.ticked {
            assert((scol + 1) * (n + 1) <= w * (n + 1)) by (nonlinear_arith)
                requires
                    scol + 1 <= w,
                    0 <= n,
            ;
        }
        assert(s.position() < (srow + 1) * r);
    } else {
        assert(srow == h);
    }
}

/// A render is done after as many steps as its rows have, and not before:
/// it ends, and it skips nothing.
pub proof fn lemma_render_ends_on_time(width: u32, height: u32, samples: u32, n: nat)
    requires
        width * height <= usize::MAX,
    ensures
        Cursor::start(width, height, samples).after_steps(n).wf(),
        Cursor::start(width, height, samples).after_steps(n).position() == if n
            <= Cursor::start(width, height, samples).total() {
            n as int
        } else {
            Cursor::start(width, height, samples).total()
        },
        Cursor::start(width, height, samples).after_steps(n).step() == Step::Done <==> n
            >= Cursor::start(width, height, samples).total(),
    decreases n,
{
    let start = Cursor::start(width, height, samples);
    assert(0 * start.row_steps() == 0 && 0 * (samples + 1) == 0) by (nonlinear_arith);
    if n == 0 {
        lemma_steps_are_counted(start);
    } else {
        let before = start.after_steps((n - 1) as nat);
        lemma_render_ends_on_time(width, height, samples, (n - 1) as nat);
        lemma_step_keeps_shape(before);
        lemma_steps_are_counted(before);
        lemma_steps_are_counted(before.after());
        lemma_shape_is_kept(width, height, samples, (n - 1) as nat);
    }
}

/// However far a render has come, it is a render of the same image.
pub proof fn lemma_shape_is_kept(width: u32, height: u32, samples: u32, n: nat)
    requires
        width * height <= usize::MAX,
    ensures
        Cursor::start(width, height, samples).after_steps(n).wf(),
        Cursor::start(width, height, samples).after_steps(n).width == width,
        Cursor::start(width, height, samples).after_steps(n).height == height,
        Cursor::start(width, height, samples).after_steps(n).samples == samples,
    decreases n,
{
    if n > 0 {
        lemma_shape_is_kept(width, height, samples, (n - 1) as nat);
        lemma_step_keeps_shape(Cursor::start(width, height, samples).after_steps((n - 1) as nat));
    }
}

/// When a render is done, every pixel of the image has been stored.
pub proof fn lemma_done_means_all_stored(c: Cursor)
    requires
        c.wf(),
        c.step() == Step::Done,
    ensures
        c.stored() == c.width * c.height,
{
    let w = c.width as int;
    let row = c.row as int;
    assert((row + 1) * w == row * w + w) by (nonlinear_arith);
    assert(c.height * w == w * c.height) by (nonlinear_arith);
}

/// Pixels are stored in the order of the buffer: a store fills the place
/// after the last one filled, which lies in the buffer, and a sample is for
/// the pixel whose place is to be filled next.
pub proof fn lemma_stores_fill_the_buffer_in_order(c: Cursor)
    requires
        c.wf(),
    ensures
        c.step() matches Step::Store { index } ==> index == c.stored() && c.after().stored()
            == c.stored() + 1 && index < c.width * c.height,
        c.step() matches Step::Sample { i, j } ==> i < c.width && j < c.height && j * c.width + i
            == c.stored() && c.after().stored() == c.stored(),
        c.step() matches Step::Progress { percent } ==> c.after().stored() == c.stored(),
{
    let s = c.settled();
    let w = c.width as int;
    let row = c.row as int;
    assert((row + 1) * w == row * w + w) by (nonlinear_arith);
    assert(s.stored() == c.stored());
    if s.row < s.height && s.ticked {
        lemma_pixel_lies_in_image(s);
    }
}

/// A pixel is stored when it has had all its samples and not before: a
/// sample is one that was still owing, and a store finds none owing.
pub proof fn lemma_store_follows_all_samples(c: Cursor)
    requires
        c.wf(),
    ensures
        c.step() matches Step::Sample { i, j } ==> c.settled().sample < c.samples
            && c.after().sample == c.settled().sample + 1,
        c.step() matches Step::Store { index } ==> c.settled().sample == c.samples
            && c.after().sample == 0,
        c.step() matches Step::Progress { percent } ==> c.after().sample == 0,
{
}

/// A row is announced before anything of it is rendered, with the whole
/// percentage of rows finished by then.
pub proof fn lemma_progress_opens_a_row(c: Cursor)
    requires
        c.wf(),
    ensures
        c.step() matches Step::Progress { percent } ==> {
            &&& c.settled().col == 0
            &&& c.settled().sample == 0
            &&& percent == c.settled().row * 100 / (c.height as int)
            &&& percent < 100
        },
{
    let s = c.settled();
    if s.row < s.height && !s.ticked {
        let h = s.height as int;
        let row = s.row as int;
        assert(row * 100 / h < 100 && 0 <= row * 100 / h) by (nonlinear_arith)
            requires
                0 <= row < h,
        ;
    }
}

} // verus!
