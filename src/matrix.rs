use vstd::prelude::*;

verus! {

/// One of the three output lines of a panel.
#[derive(Clone, Copy, PartialEq, Eq, Structural, Debug)]
pub enum Line {
    Clock,
    Data,
    Strobe,
}

/// One write to an output line: the line, and whether it is driven high or low.
#[derive(Clone, Copy, PartialEq, Eq, Structural, Debug)]
pub struct Signal {
    pub line: Line,
    pub high: bool,
}

pub open spec fn drive(line: Line, high: bool) -> Signal {
    Signal { line, high }
}

/// The clock line driven high, then low.
pub open spec fn clock_pulse() -> Seq<Signal> {
    seq![drive(Line::Clock, true), drive(Line::Clock, false)]
}

/// The strobe line driven high, then low.
pub open spec fn strobe_pulse() -> Seq<Signal> {
    seq![drive(Line::Strobe, true), drive(Line::Strobe, false)]
}

/// One pixel: the data line set to its value, then one clock pulse.
pub open spec fn pixel_signals(on: bool) -> Seq<Signal> {
    seq![drive(Line::Data, on)] + clock_pulse()
}

/// `n` clock pulses in a row.
pub open spec fn clock_pulses(n: nat) -> Seq<Signal>
    decreases n,
{
    if n == 0 {
        seq![]
    } else {
        clock_pulses((n - 1) as nat) + clock_pulse()
    }
}

/// The data line set low, then one clock pulse for each of the `cells` cells.
pub open spec fn clear_signals(cells: nat) -> Seq<Signal> {
    seq![drive(Line::Data, false)] + clock_pulses(cells)
}

/// Bit `i` of `row` (bit 0 is the least significant).
pub open spec fn row_bit(row: u8, i: u8) -> bool {
    (row >> i) & 1u8 == 1u8
}

/// The bits of `row`, most significant first.
pub open spec fn row_bits(row: u8) -> Seq<bool> {
    Seq::new(8, |k: int| row_bit(row, (7 - k) as u8))
}

/// The pixels of the first `k` bits of `row`, most significant first.
pub open spec fn row_prefix_signals(row: u8, k: nat) -> Seq<Signal>
    decreases k,
{
    if k == 0 {
        seq![]
    } else {
        row_prefix_signals(row, (k - 1) as nat) + pixel_signals(row_bit(row, (8 - k) as u8))
    }
}

/// One row: a pixel for each of its eight bits, most significant first.
pub open spec fn row_signals(row: u8) -> Seq<Signal> {
    row_prefix_signals(row, 8)
}

/// Level of the data line once the writes of `s` are done. A line that was
/// never driven reads low.
pub open spec fn data_level(s: Seq<Signal>) -> bool
    decreases s.len(),
{
    if s.len() == 0 {
        false
    } else if s.last().line == Line::Data {
        s.last().high
    } else {
        data_level(s.drop_last())
    }
}

/// The bits that the writes of `s` clock into the shift register, oldest
/// first: each time the clock line is driven high, the register takes the
/// level of the data line.
pub open spec fn clocked_bits(s: Seq<Signal>) -> Seq<bool>
    decreases s.len(),
{
    if s.len() == 0 {
        seq![]
    } else if s.last() == drive(Line::Clock, true) {
        clocked_bits(s.drop_last()).push(data_level(s.drop_last()))
    } else {
        clocked_bits(s.drop_last())
    }
}

/// What a chain of `cells` cells holds after `bits` were clocked in: the last
/// `cells` of them, oldest first (all of them while fewer came in).
pub open spec fn register_of(bits: Seq<bool>, cells: nat) -> Seq<bool> {
    if bits.len() <= cells {
        bits
    } else {
        bits.subrange(bits.len() - cells, bits.len() as int)
    }
}

/// What the panel shows once the writes of `s` are done: the register as it
/// was when the strobe line was last driven high (nothing before that).
pub open spec fn latched_frame(s: Seq<Signal>, cells: nat) -> Seq<bool>
    decreases s.len(),
{
    if s.len() == 0 {
        seq![]
    } else if s.last() == drive(Line::Strobe, true) {
        register_of(clocked_bits(s.drop_last()), cells)
    } else {
        latched_frame(s.drop_last(), cells)
    }
}

/// The abstract state of a panel driver.
#[verifier::ext_equal]
pub struct PanelView {
    pub height: u16,
    pub width: u16,
    /// Line writes produced and not yet handed out, oldest first.
    pub pending: Seq<Signal>,
    /// Every line write produced since the driver was made, oldest first.
    pub history: Seq<Signal>,
}

impl PanelView {
    /// Number of pixels on the panel.
    pub open spec fn cells(self) -> nat {
        (self.height * self.width) as nat
    }

    /// The state after the writes `t` are produced.
    pub open spec fn emit(self, t: Seq<Signal>) -> PanelView {
        PanelView { pending: self.pending + t, history: self.history + t, ..self }
    }

    /// Every bit clocked into the shift register so far, oldest first.
    pub open spec fn clocked(self) -> Seq<bool> {
        clocked_bits(self.history)
    }

    /// What the shift register holds now.
    pub open spec fn register(self) -> Seq<bool> {
        register_of(self.clocked(), self.cells())
    }

    /// What the panel shows now.
    pub open spec fn visible(self) -> Seq<bool> {
        latched_frame(self.history, self.cells())
    }
}

pub proof fn lemma_emit_twice(v: PanelView, t: Seq<Signal>, u: Seq<Signal>)
    ensures
        v.emit(t).emit(u) == v.emit(t + u),
{
    assert(v.emit(t).emit(u) =~~= v.emit(t + u));
}

/// What one more line write does to the data level, the clocked bits and
/// the latched frame.
pub proof fn lemma_one_more(s: Seq<Signal>, x: Signal, cells: nat)
    ensures
        data_level(s.push(x)) == if x.line == Line::Data {
            x.high
        } else {
            data_level(s)
        },
        clocked_bits(s.push(x)) == if x == drive(Line::Clock, true) {
            clocked_bits(s).push(data_level(s))
        } else {
            clocked_bits(s)
        },
        latched_frame(s.push(x), cells) == if x == drive(Line::Strobe, true) {
            register_of(clocked_bits(s), cells)
        } else {
            latched_frame(s, cells)
        },
{
    assert(s.push(x).drop_last() =~= s);
}

proof fn lemma_clock_pulse(s: Seq<Signal>, cells: nat)
    ensures
        data_level(s + clock_pulse()) == data_level(s),
        clocked_bits(s + clock_pulse()) == clocked_bits(s).push(data_level(s)),
        latched_frame(s + clock_pulse(), cells) == latched_frame(s, cells),
{
    let a = s.push(drive(Line::Clock, true));
    assert(s + clock_pulse() =~= a.push(drive(Line::Clock, false)));
    lemma_one_more(s, drive(Line::Clock, true), cells);
    lemma_one_more(a, drive(Line::Clock, false), cells);
}

proof fn lemma_pixel(s: Seq<Signal>, on: bool, cells: nat)
    ensures
        data_level(s + pixel_signals(on)) == on,
        clocked_bits(s + pixel_signals(on)) == clocked_bits(s).push(on),
        latched_frame(s + pixel_signals(on), cells) == latched_frame(s, cells),
{
    let a = s.push(drive(Line::Data, on));
    assert(s + pixel_signals(on) =~= a + clock_pulse());
    lemma_one_more(s, drive(Line::Data, on), cells);
    lemma_clock_pulse(a, cells);
}

proof fn lemma_strobe_pulse(s: Seq<Signal>, cells: nat)
    ensures
        data_level(s + strobe_pulse()) == data_level(s),
        clocked_bits(s + strobe_pulse()) == clocked_bits(s),
        latched_frame(s + strobe_pulse(), cells) == register_of(clocked_bits(s), cells),
{
    let a = s.push(drive(Line::Strobe, true));
    assert(s + strobe_pulse() =~= a.push(drive(Line::Strobe, false)));
    lemma_one_more(s, drive(Line::Strobe, true), cells);
    lemma_one_more(a, drive(Line::Strobe, false), cells);
}

proof fn lemma_clock_pulses(s: Seq<Signal>, n: nat)
    ensures
        data_level(s + clock_pulses(n)) == data_level(s),
        clocked_bits(s + clock_pulses(n)) == clocked_bits(s) + Seq::new(n, |i: int| data_level(s)),
    decreases n,
{
    if n == 0 {
        assert(s + clock_pulses(0) =~= s);
        assert(clocked_bits(s) + Seq::new(0, |i: int| data_level(s)) =~= clocked_bits(s));
    } else {
        let m = (n - 1) as nat;
        let a = s + clock_pulses(m);
        lemma_clock_pulses(s, m);
        assert(s + clock_pulses(n) =~= a + clock_pulse());
        lemma_clock_pulse(a, 0);
        assert(clocked_bits(s) + Seq::new(n, |i: int| data_level(s)) =~= (clocked_bits(s)
            + Seq::new(m, |i: int| data_level(s))).push(data_level(s)));
    }
}

proof fn lemma_row_prefix(s: Seq<Signal>, row: u8, k: nat)
    requires
        k <= 8,
    ensures
        clocked_bits(s + row_prefix_signals(row, k)) == clocked_bits(s) + row_bits(row).take(
            k as int,
        ),
    decreases k,
{
    if k == 0 {
        assert(s + row_prefix_signals(row, 0) =~= s);
        assert(clocked_bits(s) + row_bits(row).take(0) =~= clocked_bits(s));
    } else {
        let m = (k - 1) as nat;
        let on = row_bit(row, (8 - k) as u8);
        let a = s + row_prefix_signals(row, m);
        lemma_row_prefix(s, row, m);
        assert(s + row_prefix_signals(row, k) =~= a + pixel_signals(on));
        lemma_pixel(a, on, 0);
        assert(clocked_bits(s) + row_bits(row).take(k as int) =~= (clocked_bits(s) + row_bits(
            row,
        ).take(m as int)).push(on));
    }
}

/// Pushing a row shifts exactly its eight bits into the register, most
/// significant first, one pixel write (data, then a clock pulse) per bit.
pub proof fn lemma_row_shifts_bits(s: Seq<Signal>, row: u8)
    ensures
        row_signals(row).len() == 24,
        forall|k: int|
            0 <= k < 8 ==> #[trigger] row_signals(row).subrange(3 * k, 3 * k + 3) == pixel_signals(
                row_bits(row)[k],
            ),
        clocked_bits(s + row_signals(row)) == clocked_bits(s) + row_bits(row),
{
    lemma_row_prefix_pixels(row, 8);
    lemma_row_prefix(s, row, 8);
    assert(row_bits(row).take(8) =~= row_bits(row));
}

proof fn lemma_row_prefix_pixels(row: u8, k: nat)
    requires
        k <= 8,
    ensures
        row_prefix_signals(row, k).len() == 3 * k,
        forall|j: int|
            0 <= j < k ==> #[trigger] row_prefix_signals(row, k).subrange(3 * j, 3 * j + 3)
                == pixel_signals(row_bits(row)[j]),
    decreases k,
{
    if k > 0 {
        let m = (k - 1) as nat;
        let a = row_prefix_signals(row, m);
        let p = pixel_signals(row_bit(row, (8 - k) as u8));
        lemma_row_prefix_pixels(row, m);
        assert forall|j: int| 0 <= j < k implies #[trigger] row_prefix_signals(row, k).subrange(
            3 * j,
            3 * j + 3,
        ) == pixel_signals(row_bits(row)[j]) by {
            if j < m {
                assert((a + p).subrange(3 * j, 3 * j + 3) =~= a.subrange(3 * j, 3 * j + 3));
            } else {
                assert((a + p).subrange(3 * j, 3 * j + 3) =~= p);
            }
        }
    }
}

/// Clearing a panel of `cells` pixels gives exactly `cells` clock pulses,
/// with the data line low at each of them: every cell of the register is off.
pub proof fn lemma_clear_shifts_off(s: Seq<Signal>, cells: nat)
    ensures
        clocked_bits(s + clear_signals(cells)) == clocked_bits(s) + Seq::new(cells, |i: int| false),
        register_of(clocked_bits(s + clear_signals(cells)), cells) == Seq::new(
            cells,
            |i: int| false,
        ),
        data_level(s + clear_signals(cells)) == false,
{
    let a = s.push(drive(Line::Data, false));
    assert(s + clear_signals(cells) =~= a + clock_pulses(cells));
    lemma_one_more(s, drive(Line::Data, false), 0);
    lemma_clock_pulses(a, cells);
    let bits = clocked_bits(s + clear_signals(cells));
    assert(bits.subrange(bits.len() - cells, bits.len() as int) =~= Seq::new(
        cells,
        |i: int| false,
    ));
}

proof fn lemma_frame_kept_by_pulses(s: Seq<Signal>, n: nat, cells: nat)
    ensures
        latched_frame(s + clock_pulses(n), cells) == latched_frame(s, cells),
    decreases n,
{
    if n == 0 {
        assert(s + clock_pulses(0) =~= s);
    } else {
        let m = (n - 1) as nat;
        lemma_frame_kept_by_pulses(s, m, cells);
        assert(s + clock_pulses(n) =~= (s + clock_pulses(m)) + clock_pulse());
        lemma_clock_pulse(s + clock_pulses(m), cells);
    }
}

/// Showing twice in a row latches the same frame as showing once.
pub proof fn lemma_show_twice(v: PanelView)
    ensures
        v.emit(strobe_pulse()).emit(strobe_pulse()).visible() == v.emit(strobe_pulse()).visible(),
{
    let once = v.history + strobe_pulse();
    lemma_strobe_pulse(v.history, v.cells());
    lemma_strobe_pulse(once, v.cells());
}

/// Driver of one panel: a chain of shift registers behind a latch, reached
/// through a clock, a data and a strobe line. Each operation produces the
/// line writes that carry it out, in order; whoever owns the lines takes
/// them with `take_signals` and performs them.
pub struct LedMatrix {
    height: u16,
    width: u16,
    pending: Vec<Signal>,
    history: Ghost<Seq<Signal>>,
}

impl View for LedMatrix {
    type V = PanelView;

    closed spec fn view(&self) -> PanelView {
        PanelView {
            height: self.height,
            width: self.width,
            pending: self.pending@,
            history: self.history@,
        }
    }
}

impl LedMatrix {
    /// A driver for a panel of `height` rows of `width` pixels, with nothing
    /// produced yet.
    pub fn new(height: u16, width: u16) -> (r: LedMatrix)
        ensures
            r@ == (PanelView { height, width, pending: seq![], history: seq![] }),
    {
        LedMatrix { height, width, pending: Vec::new(), history: Ghost(Seq::empty()) }
    }

    pub fn height(&self) -> (r: u16)
        ensures
            r == self@.height,
    {
        self.height
    }

    pub fn width(&self) -> (r: u16)
        ensures
            r == self@.width,
    {
        self.width
    }

    fn emit(&mut self, signal: Signal)
        ensures
            final(self)@ == old(self)@.emit(seq![signal]),
    {
        self.pending.push(signal);
        self.history = Ghost(self.history@.push(signal));
        assert(self@ =~~= old(self)@.emit(seq![signal]));
    }

    /// Hands out the line writes produced since the last call, oldest first.
    pub fn take_signals(&mut self) -> (r: Vec<Signal>)
        ensures
            r@ == old(self)@.pending,
            final(self)@ == (PanelView { pending: seq![], ..old(self)@ }),
    {
        let mut out: Vec<Signal> = Vec::new();
        core::mem::swap(&mut out, &mut self.pending);
        assert(self@ =~~= (PanelView { pending: seq![], ..old(self)@ }));
        out
    }

    /// Drives the clock high, then low: the register takes one bit, the
    /// level of the data line.
    pub fn pulse_clock(&mut self)
        ensures
            final(self)@ == old(self)@.emit(clock_pulse()),
            final(self)@.clocked() == old(self)@.clocked().push(data_level(old(self)@.history)),
            final(self)@.visible() == old(self)@.visible(),
    {
        self.emit(Signal { line: Line::Clock, high: true });
        self.emit(Signal { line: Line::Clock, high: false });
        proof {
            lemma_emit_twice(old(self)@, seq![drive(Line::Clock, true)], seq![drive(Line::Clock, false)]);
            assert(seq![drive(Line::Clock, true)] + seq![drive(Line::Clock, false)] =~= clock_pulse());
            lemma_clock_pulse(old(self)@.history, old(self)@.cells());
        }
    }

    /// Drives the strobe high, then low: the panel shows what the register
    /// holds.
    pub fn show(&mut self)
        ensures
            final(self)@ == old(self)@.emit(strobe_pulse()),
            final(self)@.visible() == old(self)@.register(),
            final(self)@.clocked() == old(self)@.clocked(),
    {
        self.emit(Signal { line: Line::Strobe, high: true });
        self.emit(Signal { line: Line::Strobe, high: false });
        proof {
            lemma_emit_twice(old(self)@, seq![drive(Line::Strobe, true)], seq![drive(Line::Strobe, false)]);
            assert(seq![drive(Line::Strobe, true)] + seq![drive(Line::Strobe, false)] =~= strobe_pulse());
            lemma_strobe_pulse(old(self)@.history, old(self)@.cells());
        }
    }

    /// Sets the data line low, then gives one clock pulse per pixel: every
    /// cell of the register is off.
    pub fn clear(&mut self)
        ensures
            final(self)@ == old(self)@.emit(clear_signals(old(self)@.cells())),
            final(self)@.clocked() == old(self)@.clocked() + Seq::new(
                old(self)@.cells(),
                |i: int| false,
            ),
            final(self)@.register() == Seq::new(old(self)@.cells(), |i: int| false),
            final(self)@.visible() == old(self)@.visible(),
    {
        let h = self.height;
        let w = self.width;
        assert((h as int) * (w as int) <= 65535 * 65535) by (nonlinear_arith)
            requires
                h <= 65535,
                w <= 65535,
        ;
        let cells: u32 = (h as u32) * (w as u32);
        self.emit(Signal { line: Line::Data, high: false });
        let mut i: u32 = 0;
        while i < cells
            invariant
                i <= cells,
                cells as nat == old(self)@.cells(),
                self@ == old(self)@.emit(seq![drive(Line::Data, false)] + clock_pulses(i as nat)),
            decreases cells - i,
        {
            self.pulse_clock();
            proof {
                lemma_emit_twice(
                    old(self)@,
                    seq![drive(Line::Data, false)] + clock_pulses(i as nat),
                    clock_pulse(),
                );
                assert(seq![drive(Line::Data, false)] + clock_pulses((i + 1) as nat) =~= (seq![
                    drive(Line::Data, false),
                ] + clock_pulses(i as nat)) + clock_pulse());
            }
            i = i + 1;
        }
        proof {
            assert(seq![drive(Line::Data, false)] + clock_pulses(cells as nat) =~= clear_signals(
                cells as nat,
            ));
            lemma_clear_shifts_off(old(self)@.history, cells as nat);
            let a = old(self)@.history.push(drive(Line::Data, false));
            assert(old(self)@.history + clear_signals(cells as nat) =~= a + clock_pulses(
                cells as nat,
            ));
            lemma_one_more(old(self)@.history, drive(Line::Data, false), cells as nat);
            lemma_frame_kept_by_pulses(a, cells as nat, cells as nat);
        }
    }

    /// Sets the data line high and gives one clock pulse: one lit pixel.
    pub fn pixel_on(&mut self)
        ensures
            final(self)@ == old(self)@.emit(pixel_signals(true)),
            final(self)@.clocked() == old(self)@.clocked().push(true),
            final(self)@.visible() == old(self)@.visible(),
    {
        self.pixel(true);
    }

    /// Sets the data line low and gives one clock pulse: one dark pixel.
    pub fn pixel_off(&mut self)
        ensures
            final(self)@ == old(self)@.emit(pixel_signals(false)),
            final(self)@.clocked() == old(self)@.clocked().push(false),
            final(self)@.visible() == old(self)@.visible(),
    {
        self.pixel(false);
    }

    fn pixel(&mut self, on: bool)
        ensures
            final(self)@ == old(self)@.emit(pixel_signals(on)),
            final(self)@.clocked() == old(self)@.clocked().push(on),
            final(self)@.visible() == old(self)@.visible(),
    {
        self.emit(Signal { line: Line::Data, high: on });
        self.pulse_clock();
        proof {
            lemma_emit_twice(old(self)@, seq![drive(Line::Data, on)], clock_pulse());
            lemma_pixel(old(self)@.history, on, old(self)@.cells());
        }
    }

    /// Shifts one row of eight pixels into the register, most significant
    /// bit first.
    pub fn push_row(&mut self, row: u8)
        ensures
            final(self)@ == old(self)@.emit(row_signals(row)),
            final(self)@.clocked() == old(self)@.clocked() + row_bits(row),
            final(self)@.visible() == old(self)@.visible(),
    {
        let mut k: u8 = 0;
        while k < 8
            invariant
                k <= 8,
                self@ == old(self)@.emit(row_prefix_signals(row, k as nat)),
                self@.visible() == old(self)@.visible(),
            decreases 8 - k,
        {
            let i: u8 = 7 - k;
            let on = (row >> i) & 1 == 1;
            self.pixel(on);
            proof {
                lemma_emit_twice(old(self)@, row_prefix_signals(row, k as nat), pixel_signals(on));
            }
            k = k + 1;
        }
        proof {
            lemma_row_shifts_bits(old(self)@.history, row);
        }
    }
} // impl LedMatrix

} // verus!
