use vstd::prelude::*;

verus! {

/// The sequence the module sends to detect that its output is patched
/// back into its input.
pub const PROBE_SEQUENCE: [bool; 32] = [
    true, true, false, true, false, false, true, false, true, true, true, false, true, false,
    false, false, false, false, false, true, true, false, true, false, true, true, true, false,
    false, false, false, true,
];

/// What a probe generator holds: the sequence it sends and the position of
/// the next value to send.
pub struct GeneratorModel {
    pub sequence: Seq<bool>,
    pub position: nat,
}

/// What a probe detector holds: the sequence it looks for, the position in
/// its queue where the next value goes, the queue of received values and the
/// outcome of the last full comparison.
pub struct DetectorModel {
    pub sequence: Seq<bool>,
    pub position: nat,
    pub queue: Seq<bool>,
    pub detected: bool,
}

/// Sends a fixed sequence of values over and over, one value per read.
pub struct ProbeGenerator<'a> {
    sequence: &'a [bool],
    position: usize,
}

impl<'a> View for ProbeGenerator<'a> {
    type V = GeneratorModel;

    closed spec fn view(&self) -> GeneratorModel {
        GeneratorModel { sequence: self.sequence@, position: self.position as nat }
    }
}

/// The generator after sending one value: it moves on to the next value of
/// the sequence, wrapping around at its end.
pub open spec fn generator_step(g: GeneratorModel) -> GeneratorModel {
    GeneratorModel { sequence: g.sequence, position: ((g.position + 1) % g.sequence.len()) as nat }
}

/// The values a generator sends on its next `count` reads.
pub open spec fn generator_reads(g: GeneratorModel, count: nat) -> Seq<bool>
    decreases count,
{
    if count == 0 {
        Seq::empty()
    } else {
        seq![g.sequence[g.position as int]] + generator_reads(generator_step(g), (count - 1) as nat)
    }
}

impl<'a> ProbeGenerator<'a> {
    #[verifier::type_invariant]
    spec fn position_in_sequence(self) -> bool {
        self.position < self.sequence@.len() || (self.sequence@.len() == 0 && self.position == 0)
    }

    /// A generator that sends `sequence`, starting from its first value.
    pub fn new(sequence: &'a [bool]) -> (r: Self)
        ensures
            r@ == (GeneratorModel { sequence: sequence@, position: 0 }),
    {
        Self { sequence, position: 0 }
    }

    /// Sends the next value of the sequence.
    pub fn read(&mut self) -> (value: bool)
        requires
            old(self)@.sequence.len() > 0,
        ensures
            value == old(self)@.sequence[old(self)@.position as int],
            final(self)@ == generator_step(old(self)@),
            final(self)@.position < final(self)@.sequence.len(),
    {
        proof {
            use_type_invariant(&*self);
        }
        let value = self.sequence[self.position];
        self.position = (self.position + 1) % self.sequence.len();
        value
    }
}

/// Number of positions at which the queue and the sequence differ.
pub open spec fn mismatches(queue: Seq<bool>, sequence: Seq<bool>) -> nat
    decreases queue.len(),
{
    if queue.len() == 0 || sequence.len() == 0 {
        0
    } else {
        mismatches(queue.drop_last(), sequence.take(sequence.len() - 1)) + if queue.last()
            == sequence[queue.len() - 1] {
            0nat
        } else {
            1nat
        }
    }
}

/// The most differences between the received values and the sequence that
/// still count as the sequence being detected.
pub const TOLERATED_MISMATCHES: usize = 2;

/// The detector after receiving `value`: it stores the value at the current
/// position of its queue and moves on, wrapping around at the queue's end.
pub open spec fn detector_step(d: DetectorModel, value: bool) -> DetectorModel {
    DetectorModel {
        sequence: d.sequence,
        position: ((d.position + 1) % d.queue.len()) as nat,
        queue: d.queue.update(d.position as int, value),
        detected: d.detected,
    }
}

/// The detector after receiving `values`, one after the other.
pub open spec fn detector_writes(d: DetectorModel, values: Seq<bool>) -> DetectorModel
    decreases values.len(),
{
    if values.len() == 0 {
        d
    } else {
        detector_writes(detector_step(d, values[0]), values.drop_first())
    }
}

/// What a detector reports when asked: once its queue has been filled up to
/// the end, whether the queue matches the sequence up to the tolerated number
/// of differences; otherwise the outcome of the previous comparison.
pub open spec fn detector_verdict(d: DetectorModel) -> bool {
    if d.position == 0 {
        mismatches(d.queue, d.sequence) <= TOLERATED_MISMATCHES
    } else {
        d.detected
    }
}

/// Watches a stream of values for a fixed sequence of `N` values.
pub struct ProbeDetector<'a, const N: usize> {
    sequence: &'a [bool],
    position: usize,
    queue: [bool; N],
    detected_cache: bool,
}

impl<'a, const N: usize> View for ProbeDetector<'a, N> {
    type V = DetectorModel;

    closed spec fn view(&self) -> DetectorModel {
        DetectorModel {
            sequence: self.sequence@,
            position: self.position as nat,
            queue: self.queue@,
            detected: self.detected_cache,
        }
    }
}

impl<'a, const N: usize> ProbeDetector<'a, N> {
    #[verifier::type_invariant]
    spec fn position_in_queue(self) -> bool {
        &&& self.position < N || (N == 0 && self.position == 0)
        &&& self.sequence@.len() == N
    }

    /// A detector looking for `sequence`, with an empty queue of `N` values.
    pub fn new(sequence: &'a [bool]) -> (r: Self)
        requires
            sequence@.len() == N,
        ensures
            r@.sequence == sequence@,
            r@.position == 0,
            r@.queue == Seq::new(N as nat, |i: int| false),
            !r@.detected,
    {
        let queue = [false; N];
        proof {
            broadcast use vstd::array::group_array_axioms;

            assert(queue@ =~= Seq::new(N as nat, |i: int| false));
        }
        Self { sequence, position: 0, queue, detected_cache: false }
    }

    /// Receives one value.
    pub fn write(&mut self, value: bool)
        requires
            N > 0,
        ensures
            final(self)@ == detector_step(old(self)@, value),
            final(self)@.position < N,
    {
        proof {
            use_type_invariant(&*self);
            broadcast use vstd::array::group_array_axioms;

        }
        self.queue[self.position] = value;
        self.position = (self.position + 1) % N;
    }

    /// Whether the sequence has been detected: compares the queue with the
    /// sequence each time the queue has been filled up to its end.
    pub fn detected(&mut self) -> (r: bool)
        ensures
            r == detector_verdict(old(self)@),
            final(self)@ == (DetectorModel { detected: r, ..old(self)@ }),
    {
        proof {
            use_type_invariant(&*self);
            broadcast use vstd::array::group_array_axioms;

        }
        if self.position == 0 {
            let mut unmatched: usize = 0;
            let mut i: usize = 0;
            while i < N
                invariant
                    i <= N,
                    self.sequence@.len() == N,
                    self.queue@.len() == N,
                    unmatched == mismatches(self.queue@.take(i as int), self.sequence@.take(i as int)),
                    unmatched <= i,
                decreases N - i,
            {
                proof {
                    assert(self.queue@.take(i + 1).drop_last() =~= self.queue@.take(i as int));
                    assert(self.sequence@.take(i + 1).take(i as int) =~= self.sequence@.take(i as int));
                }
                if self.queue[i] != self.sequence[i] {
                    unmatched = unmatched + 1;
                }
                i = i + 1;
            }
            proof {
                assert(self.queue@.take(N as int) =~= self.queue@);
                assert(self.sequence@.take(N as int) =~= self.sequence@);
            }
            self.detected_cache = unmatched <= TOLERATED_MISMATCHES;
        }
        self.detected_cache
    }
}


/// Reading on from position `p` sends the sequence from `p` onwards, in
/// order, until its end.
pub proof fn lemma_generator_reads_in_order(g: GeneratorModel, count: nat)
    requires
        g.position + count <= g.sequence.len(),
    ensures
        generator_reads(g, count) =~= g.sequence.subrange(g.position as int, (g.position + count) as int),
    decreases count,
{
    if count > 0 {
        let next = generator_step(g);
        if g.position + 1 < g.sequence.len() {
            vstd::arithmetic::div_mod::lemma_small_mod((g.position + 1) as nat, g.sequence.len());
            assert(next.position == g.position + 1);
        } else {
            assert(count == 1);
        }
        lemma_generator_reads_in_order(next, (count - 1) as nat);
    }
}

/// A generator started at the beginning of its sequence sends the whole
/// sequence on its first reads, and is then back at the beginning.
pub proof fn lemma_generator_period(g: GeneratorModel)
    requires
        g.position == 0,
        g.sequence.len() > 0,
    ensures
        generator_reads(g, g.sequence.len()) == g.sequence,
        generator_position_after(g, g.sequence.len()) == 0,
{
    lemma_generator_reads_in_order(g, g.sequence.len());
    lemma_generator_position_after(g, g.sequence.len());
}

/// Position of the generator after `count` reads.
pub open spec fn generator_position_after(g: GeneratorModel, count: nat) -> nat
    decreases count,
{
    if count == 0 {
        g.position
    } else {
        generator_position_after(generator_step(g), (count - 1) as nat)
    }
}

/// After `count` reads the generator has moved `count` values on, wrapping
/// around at the end of the sequence.
pub proof fn lemma_generator_position_after(g: GeneratorModel, count: nat)
    requires
        g.position < g.sequence.len(),
    ensures
        generator_position_after(g, count) == (g.position + count) as int % (g.sequence.len() as int),
    decreases count,
{
    if count > 0 {
        let next = generator_step(g);
        lemma_generator_position_after(next, (count - 1) as nat);
        let len = g.sequence.len() as int;
        let x: int = count - 1;
        let y: int = g.position + 1int;
        assert((x + (y % len)) % len == (x + y) % len) by {
            vstd::arithmetic::div_mod::lemma_add_mod_noop_right(x, y, len);
        }
        assert(next.position as int == y % len);
        assert(next.position < len);
        assert(generator_position_after(g, count) == generator_position_after(next, (count - 1) as nat));
        assert(generator_position_after(next, (count - 1) as nat) == (next.position as int + x) % len);
        assert(next.position as int + x == x + (y % len));
        assert(x + y == (g.position + count) as int);
    } else {
        vstd::arithmetic::div_mod::lemma_small_mod(g.position, g.sequence.len());
    }
}

/// Writing values into the detector from position `p` up to the end of its
/// queue puts them in the queue in order and brings the position back to
/// the start.
pub proof fn lemma_detector_fills_queue(d: DetectorModel, values: Seq<bool>)
    requires
        d.position + values.len() == d.queue.len(),
        values.len() > 0,
    ensures
        ({
            let after = detector_writes(d, values);
            &&& after.queue =~= d.queue.subrange(0, d.position as int) + values
            &&& after.position == 0
            &&& after.sequence == d.sequence
        }),
    decreases values.len(),
{
    if values.len() > 0 {
        let next = detector_step(d, values[0]);
        if values.len() > 1 {
            vstd::arithmetic::div_mod::lemma_small_mod((d.position + 1) as nat, d.queue.len());
            assert(next.position == d.position + 1);
            lemma_detector_fills_queue(next, values.drop_first());
            assert(next.queue.subrange(0, next.position as int) =~= d.queue.subrange(0, d.position as int)
                + seq![values[0]]);
        } else {
            vstd::arithmetic::div_mod::lemma_mod_self_0(d.queue.len() as int);
            assert(detector_writes(next, values.drop_first()) == next);
            assert(next.position == 0);
            assert(next.queue =~= d.queue.subrange(0, d.position as int) + values);
        }
    }
}

/// A queue that equals the sequence has no mismatches.
pub proof fn lemma_no_mismatches_with_itself(sequence: Seq<bool>)
    ensures
        mismatches(sequence, sequence) == 0,
    decreases sequence.len(),
{
    if sequence.len() > 0 {
        assert(sequence.take(sequence.len() - 1) =~= sequence.drop_last());
        lemma_no_mismatches_with_itself(sequence.drop_last());
    }
}

/// A detector that receives, from the start of its queue, one full period of
/// a generator of the same sequence detects the sequence.
pub proof fn lemma_generated_sequence_is_detected(g: GeneratorModel, d: DetectorModel)
    requires
        g.position == 0,
        d.position == 0,
        g.sequence.len() > 0,
        d.sequence == g.sequence,
        d.queue.len() == g.sequence.len(),
    ensures
        detector_verdict(detector_writes(d, generator_reads(g, g.sequence.len()))),
{
    lemma_generator_period(g);
    lemma_detector_fills_queue(d, g.sequence);
    let after = detector_writes(d, g.sequence);
    assert(after.queue =~= g.sequence);
    lemma_no_mismatches_with_itself(g.sequence);
}

/// What a generator holds after `count` reads.
pub open spec fn generator_after(g: GeneratorModel, count: nat) -> GeneratorModel
    decreases count,
{
    if count == 0 {
        g
    } else {
        generator_after(generator_step(g), (count - 1) as nat)
    }
}

/// Reads keep the generator's sequence and move its position as
/// `generator_position_after` says.
proof fn lemma_generator_after(g: GeneratorModel, count: nat)
    ensures
        generator_after(g, count).sequence == g.sequence,
        generator_after(g, count).position == generator_position_after(g, count),
    decreases count,
{
    if count > 0 {
        lemma_generator_after(generator_step(g), (count - 1) as nat);
    }
}

/// Reading `c + m` values sends the first `c` values and then what the
/// generator sends from where those reads left it.
proof fn lemma_generator_reads_split(g: GeneratorModel, c: nat, m: nat)
    ensures
        generator_reads(g, c + m) =~= generator_reads(g, c) + generator_reads(generator_after(g, c), m),
    decreases c,
{
    if c > 0 {
        let next = generator_step(g);
        lemma_generator_reads_split(next, (c - 1) as nat, m);
        assert((c + m - 1) as nat == (c - 1) as nat + m);
    }
}

/// A generator started at the beginning of its sequence sends the sequence
/// over and over: each of the first `k` periods of reads is the sequence.
pub proof fn lemma_generator_repeats(g: GeneratorModel, k: nat)
    requires
        g.position == 0,
        g.sequence.len() > 0,
        k >= 1,
    ensures
        generator_reads(g, k * g.sequence.len()).len() == k * g.sequence.len(),
        generator_reads(g, k * g.sequence.len()).subrange(
            (k - 1) * g.sequence.len(),
            (k * g.sequence.len()) as int,
        ) == g.sequence,
    decreases k,
{
    let n = g.sequence.len();
    lemma_generator_period(g);
    lemma_generator_reads_length(g, k * n);
    if k == 1 {
        assert(k * n == n && (k - 1) * n == 0) by (nonlinear_arith)
            requires
                k == 1,
        ;
        assert(generator_reads(g, n).subrange(0, n as int) =~= generator_reads(g, n));
    } else {
        let rest = (k - 1) as nat;
        lemma_generator_repeats(g, rest);
        assert(k * n == n + rest * n) by (nonlinear_arith)
            requires
                rest == k - 1,
        ;
        assert((k - 1) * n == n + (rest - 1) * n) by (nonlinear_arith)
            requires
                rest == k - 1,
                rest >= 1,
        ;
        lemma_generator_reads_split(g, n, rest * n);
        lemma_generator_after(g, n);
        lemma_generator_position_after(g, n);
        vstd::arithmetic::div_mod::lemma_mod_self_0(n as int);
        assert(generator_after(g, n) == g);
        let all = generator_reads(g, k * n);
        let tail = generator_reads(g, rest * n);
        assert(all =~= g.sequence + tail);
        lemma_generator_reads_length(g, rest * n);
        assert(all.subrange((k - 1) * n, (k * n) as int) =~= tail.subrange((rest - 1) * n, (rest * n) as int));
    }
}

/// A generator sends as many values as it is read.
proof fn lemma_generator_reads_length(g: GeneratorModel, count: nat)
    ensures
        generator_reads(g, count).len() == count,
    decreases count,
{
    if count > 0 {
        lemma_generator_reads_length(generator_step(g), (count - 1) as nat);
    }
}

/// Writing `a` and then `b` is writing `a + b`.
proof fn lemma_detector_writes_split(d: DetectorModel, a: Seq<bool>, b: Seq<bool>)
    ensures
        detector_writes(d, a + b) == detector_writes(detector_writes(d, a), b),
    decreases a.len(),
{
    if a.len() == 0 {
        assert(a + b =~= b);
    } else {
        assert((a + b)[0] == a[0]);
        assert((a + b).drop_first() =~= a.drop_first() + b);
        lemma_detector_writes_split(detector_step(d, a[0]), a.drop_first(), b);
    }
}

/// Writing `k` full windows of values into a detector at the start of its
/// queue leaves it at the start again, with the last window in its queue.
pub proof fn lemma_detector_windows(d: DetectorModel, values: Seq<bool>, k: nat)
    requires
        d.position == 0,
        d.queue.len() > 0,
        k >= 1,
        values.len() == k * d.queue.len(),
    ensures
        detector_writes(d, values).position == 0,
        detector_writes(d, values).sequence == d.sequence,
        detector_writes(d, values).queue == values.subrange(
            (k - 1) * d.queue.len(),
            (k * d.queue.len()) as int,
        ),
    decreases k,
{
    let n = d.queue.len();
    let first = values.take(n as int);
    let rest = values.skip(n as int);
    assert(k * n == n + (k - 1) * n) by (nonlinear_arith)
        requires
            k >= 1,
    ;
    assert(values =~= first + rest);
    lemma_detector_writes_split(d, first, rest);
    lemma_detector_fills_queue(d, first);
    let after_first = detector_writes(d, first);
    assert(after_first.queue =~= first);
    if k == 1 {
        assert(k * n == n && (k - 1) * n == 0) by (nonlinear_arith)
            requires
                k == 1,
        ;
        assert(rest.len() == 0);
        assert(detector_writes(after_first, rest) == after_first);
        assert(values.subrange(0, n as int) =~= first);
    } else {
        let m = (k - 1) as nat;
        assert(m * n == (k - 1) * n);
        lemma_detector_windows(after_first, rest, m);
        assert((m - 1) * n + n == (k - 1) * n) by (nonlinear_arith)
            requires
                m == k - 1,
                m >= 1,
        ;
        assert(rest.subrange((m - 1) * n, (m * n) as int) =~= values.subrange((k - 1) * n, (k * n) as int));
    }
}

/// Something done to a detector: writing a value, or asking whether the
/// sequence was detected.
pub enum DetectorEvent {
    Write(bool),
    Check,
}

/// The detector after being asked whether the sequence was detected: it
/// keeps the answer.
pub open spec fn detector_check(d: DetectorModel) -> DetectorModel {
    DetectorModel { detected: detector_verdict(d), ..d }
}

/// The detector after `events`, one after the other.
pub open spec fn detector_run(d: DetectorModel, events: Seq<DetectorEvent>) -> DetectorModel
    decreases events.len(),
{
    if events.len() == 0 {
        d
    } else {
        let next = match events[0] {
            DetectorEvent::Write(value) => detector_step(d, value),
            DetectorEvent::Check => detector_check(d),
        };
        detector_run(next, events.drop_first())
    }
}

/// The values written by `events`, in order.
pub open spec fn written(events: Seq<DetectorEvent>) -> Seq<bool>
    decreases events.len(),
{
    if events.len() == 0 {
        Seq::empty()
    } else {
        match events[0] {
            DetectorEvent::Write(value) => seq![value] + written(events.drop_first()),
            DetectorEvent::Check => written(events.drop_first()),
        }
    }
}

/// Asking in between changes nothing but the cached answer: a run of events
/// leaves the same sequence, position and queue as writing its values alone,
/// from any detector that agrees on those.
proof fn lemma_detector_run_writes(d: DetectorModel, e: DetectorModel, events: Seq<DetectorEvent>)
    requires
        d.sequence == e.sequence,
        d.position == e.position,
        d.queue == e.queue,
    ensures
        detector_run(d, events).sequence == detector_writes(e, written(events)).sequence,
        detector_run(d, events).position == detector_writes(e, written(events)).position,
        detector_run(d, events).queue == detector_writes(e, written(events)).queue,
    decreases events.len(),
{
    if events.len() > 0 {
        match events[0] {
            DetectorEvent::Write(value) => {
                let vs = seq![value] + written(events.drop_first());
                assert(vs[0] == value);
                assert(vs.drop_first() =~= written(events.drop_first()));
                lemma_detector_run_writes(
                    detector_step(d, value),
                    detector_step(e, value),
                    events.drop_first(),
                );
            },
            DetectorEvent::Check => {
                lemma_detector_run_writes(detector_check(d), e, events.drop_first());
            },
        }
    }
}

/// Once `k` full windows have been written into a detector that started at
/// the start of its queue, with any number of questions in between, the
/// detector answers whether the last window differs from the sequence in at
/// most the tolerated number of places.
pub proof fn lemma_last_window_decides(d: DetectorModel, events: Seq<DetectorEvent>, k: nat)
    requires
        d.position == 0,
        d.queue.len() > 0,
        d.sequence.len() == d.queue.len(),
        k >= 1,
        written(events).len() == k * d.queue.len(),
    ensures
        detector_verdict(detector_run(d, events)) == (mismatches(
            written(events).subrange((k - 1) * d.queue.len(), (k * d.queue.len()) as int),
            d.sequence,
        ) <= TOLERATED_MISMATCHES),
{
    lemma_detector_run_writes(d, d, events);
    lemma_detector_windows(d, written(events), k);
}

/// A detector fed `k` full periods of a generator of its own sequence, from
/// the start of both and with any number of questions in between, detects
/// the sequence.
pub proof fn lemma_generated_periods_are_detected(
    g: GeneratorModel,
    d: DetectorModel,
    events: Seq<DetectorEvent>,
    k: nat,
)
    requires
        g.position == 0,
        d.position == 0,
        g.sequence.len() > 0,
        d.sequence == g.sequence,
        d.queue.len() == g.sequence.len(),
        k >= 1,
        written(events) == generator_reads(g, k * g.sequence.len()),
    ensures
        detector_verdict(detector_run(d, events)),
{
    lemma_generator_repeats(g, k);
    lemma_last_window_decides(d, events, k);
    lemma_no_mismatches_with_itself(g.sequence);
}

} // verus!
