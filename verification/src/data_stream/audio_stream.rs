//! The capture side of the visualizer: the time ring that turns fixed-size
//! input chunks into overlapping analysis windows, and the ring of display
//! buffers that captured samples are packaged into for rendering.
use vstd::prelude::*;
use crate::signal_processing::{Sample, Scope};

verus! {

pub const CHANNELS: usize = 2;

pub const INTERLEAVED: bool = true;

pub const NUM_BUFFERS: usize = 16;

pub const BUFF_SIZE: usize = 256;

pub const FFT_SIZE: usize = 1024;

/// Construction from a configuration value.
pub trait New: Sized {
    fn new<CFGTYPE>(&self, cfg_data: CFGTYPE) -> Self;
}

/// `w` with its first `values.len()` entries replaced by `values`.
pub open spec fn overwrite_prefix<T>(w: Seq<T>, values: Seq<T>) -> Seq<T> {
    Seq::new(w.len(), |p: int| if p < values.len() { values[p] } else { w[p] })
}

/// `w` rotated left by `k` positions: entry `p` is `w[(p + k) mod len]`.
pub open spec fn rotate_left<T>(w: Seq<T>, k: int) -> Seq<T> {
    Seq::new(w.len(), |p: int| w[(p + k) % (w.len() as int)])
}

/// The number of values of a chunk that go into the ring: at most `BUFF_SIZE`.
pub open spec fn chunk_len(len: nat) -> nat {
    if len < BUFF_SIZE { len } else { BUFF_SIZE as nat }
}

/// The number of frames taken from `len` interleaved stereo values: one per
/// `CHANNELS` values, the last possibly partial, and at most `BUFF_SIZE`.
pub open spec fn frame_count(len: nat) -> nat {
    let chunks = (len + (CHANNELS - 1) as nat) / (CHANNELS as nat);
    if chunks < BUFF_SIZE { chunks } else { BUFF_SIZE as nat }
}

/// The number of frames taken from `len` interleaved stereo values.
pub fn frame_count_of(len: usize) -> (n: usize)
    ensures
        n == frame_count(len as nat),
        n <= BUFF_SIZE,
        len % CHANNELS == 0 ==> CHANNELS * n <= len,
        CHANNELS * n <= len + 1,
        n < BUFF_SIZE ==> CHANNELS * n >= len,
        len / CHANNELS <= BUFF_SIZE && len % CHANNELS == 0 ==> n == len / CHANNELS,
{
    proof {
        law_frame_count(len as nat);
    }
    let chunks: usize = len / CHANNELS + len % CHANNELS;
    if chunks < BUFF_SIZE {
        chunks
    } else {
        BUFF_SIZE
    }
}

/// One frame per `CHANNELS` input values, up to `BUFF_SIZE` frames: never
/// more frames than the input holds (counting a partial last frame), all of
/// the input taken when fewer than `BUFF_SIZE` frames are, and for input of
/// whole frames exactly `len / CHANNELS` frames up to the cap.
pub proof fn law_frame_count(len: nat)
    ensures
        frame_count(len) <= BUFF_SIZE,
        len % (CHANNELS as nat) == 0 ==> CHANNELS * frame_count(len) <= len,
        CHANNELS * frame_count(len) <= len + 1,
        frame_count(len) < BUFF_SIZE ==> CHANNELS * frame_count(len) >= len,
        len / (CHANNELS as nat) <= BUFF_SIZE && len % (CHANNELS as nat) == 0 ==> frame_count(len) == len / (
        CHANNELS as nat),
        len / (CHANNELS as nat) >= BUFF_SIZE ==> frame_count(len) == BUFF_SIZE,
{
}

/// Splits interleaved stereo input into (left, right) frames, as many as
/// `frame_count` says. Every frame taken must be complete: an odd number of
/// values is accepted only when the partial last frame is not taken.
pub fn stereo_frames<T: Copy>(data: &Vec<T>) -> (frames: Vec<(T, T)>)
    requires
        CHANNELS * frame_count(data@.len()) <= data@.len(),
    ensures
        frames@.len() == frame_count(data@.len()),
        forall|i: int|
            0 <= i < frames@.len() ==> #[trigger] frames@[i] == (data@[CHANNELS * i], data@[CHANNELS * i + 1]),
{
    let n: usize = frame_count_of(data.len());
    let mut frames: Vec<(T, T)> = Vec::with_capacity(n);
    let mut i: usize = 0;
    while i < n
        invariant
            n == frame_count(data@.len()),
            CHANNELS * n <= data@.len(),
            i <= n,
            frames@.len() == i,
            forall|k: int|
                0 <= k < i ==> #[trigger] frames@[k] == (data@[CHANNELS * k], data@[CHANNELS * k + 1]),
        decreases n - i,
    {
        frames.push((data[CHANNELS * i], data[CHANNELS * i + 1]));
        i = i + 1;
    }
    frames
}

/// The time index after one chunk has gone in.
pub open spec fn next_time_index(time_index: int) -> int {
    (time_index + BUFF_SIZE) % (FFT_SIZE as int)
}

/// The time index runs round the window: after `FFT_SIZE / BUFF_SIZE`
/// chunks it is back where it started.
pub proof fn law_time_index_cycles(time_index: int)
    requires
        0 <= time_index < FFT_SIZE,
        time_index % (BUFF_SIZE as int) == 0,
    ensures
        next_time_index(next_time_index(next_time_index(next_time_index(time_index)))) == time_index,
        FFT_SIZE / BUFF_SIZE == 4,
{
}

/// Law of the time ring: writing a full chunk over the front of a window and
/// rotating by one chunk drops the oldest `BUFF_SIZE` values and appends the
/// chunk, so the window always holds the latest `FFT_SIZE` values in order.
pub proof fn law_full_chunk_shifts_window<T>(w: Seq<T>, chunk: Seq<T>)
    requires
        w.len() == FFT_SIZE,
        chunk.len() == BUFF_SIZE,
    ensures
        rotate_left(overwrite_prefix(w, chunk), BUFF_SIZE as int) == w.skip(BUFF_SIZE as int) + chunk,
{
    let lhs = rotate_left(overwrite_prefix(w, chunk), BUFF_SIZE as int);
    let rhs = w.skip(BUFF_SIZE as int) + chunk;
    assert forall|p: int| 0 <= p < FFT_SIZE implies #[trigger] lhs[p] == rhs[p] by {
        if p + BUFF_SIZE < FFT_SIZE {
            assert((p + BUFF_SIZE) % (FFT_SIZE as int) == p + BUFF_SIZE);
        } else {
            assert((p + BUFF_SIZE) % (FFT_SIZE as int) == p + BUFF_SIZE - FFT_SIZE);
        }
    }
    assert(lhs =~= rhs);
}

/// The input history as one sequence: the chunks one after the other.
pub open spec fn concat_chunks<T>(chunks: Seq<Seq<T>>) -> Seq<T>
    decreases chunks.len(),
{
    if chunks.len() == 0 {
        Seq::empty()
    } else {
        concat_chunks(chunks.drop_last()) + chunks.last()
    }
}

/// The window after full chunks have gone in one by one, each shifting it as
/// `push_chunk` does.
pub open spec fn shift_all<T>(w: Seq<T>, chunks: Seq<Seq<T>>) -> Seq<T>
    decreases chunks.len(),
{
    if chunks.len() == 0 {
        w
    } else {
        shift_all(w, chunks.drop_last()).skip(BUFF_SIZE as int) + chunks.last()
    }
}

/// The window holds the latest input: after any number of full chunks it is
/// the last `FFT_SIZE` values of the starting window followed by all chunks.
pub proof fn law_window_is_latest_input<T>(w: Seq<T>, chunks: Seq<Seq<T>>)
    requires
        w.len() == FFT_SIZE,
        forall|i: int| 0 <= i < chunks.len() ==> (#[trigger] chunks[i]).len() == BUFF_SIZE,
    ensures
        ({
            let history = w + concat_chunks(chunks);
            shift_all(w, chunks) == history.subrange(history.len() - FFT_SIZE, history.len() as int)
        }),
    decreases chunks.len(),
{
    let history = w + concat_chunks(chunks);
    if chunks.len() == 0 {
        assert(history =~= w);
        assert(history.subrange(0, FFT_SIZE as int) =~= w);
    } else {
        let rest = chunks.drop_last();
        let c = chunks.last();
        assert forall|i: int| 0 <= i < rest.len() implies (#[trigger] rest[i]).len() == BUFF_SIZE by {
            assert(rest[i] == chunks[i]);
        }
        law_window_is_latest_input(w, rest);
        let h0 = w + concat_chunks(rest);
        assert(c.len() == BUFF_SIZE);
        assert(history =~= h0 + c);
        let l = h0.len() as int;
        assert(h0.len() >= FFT_SIZE);
        assert(shift_all(w, rest) == h0.subrange(l - FFT_SIZE, l));
        assert(h0.subrange(l - FFT_SIZE, l).skip(BUFF_SIZE as int) + c =~= history.subrange(
            history.len() - FFT_SIZE,
            history.len() as int,
        ));
    }
}

/// The time ring: a buffer of `2 * FFT_SIZE` values whose two halves mirror
/// each other, so that the `FFT_SIZE` values starting at the time index are
/// always contiguous. Its view is that window, oldest value first.
pub struct TimeRing<T> {
    buffer: Vec<T>,
    time_index: usize,
}

impl<T> View for TimeRing<T> {
    type V = Seq<T>;

    closed spec fn view(&self) -> Seq<T> {
        self.buffer@.subrange(self.time_index as int, self.time_index + FFT_SIZE)
    }
}

impl<T: Copy> TimeRing<T> {
    /// The ring's internal invariant: the halves mirror each other and the
    /// time index is a multiple of `BUFF_SIZE` inside the first half.
    pub closed spec fn wf(&self) -> bool {
        &&& self.buffer@.len() == 2 * FFT_SIZE
        &&& self.time_index < FFT_SIZE
        &&& self.time_index % BUFF_SIZE == 0
        &&& forall|j: int| 0 <= j < FFT_SIZE ==> #[trigger] self.buffer@[j] == self.buffer@[j + FFT_SIZE]
    }

    /// Where the next chunk goes, and where the window starts.
    pub closed spec fn time_index_spec(&self) -> nat {
        self.time_index as nat
    }

    /// The whole buffer, both halves.
    pub closed spec fn buffer_view(&self) -> Seq<T> {
        self.buffer@
    }

    /// A ring holding only `fill`, its time index at `time_index`.
    pub fn starting_at(fill: T, time_index: usize) -> (ring: Self)
        requires
            time_index < FFT_SIZE,
            time_index % BUFF_SIZE == 0,
        ensures
            ring.wf(),
            ring@ == Seq::new(FFT_SIZE as nat, |i: int| fill),
            ring.buffer_view() == Seq::new(2 * FFT_SIZE as nat, |i: int| fill),
            ring.time_index_spec() == time_index,
    {
        let mut buffer: Vec<T> = Vec::with_capacity(2 * FFT_SIZE);
        let mut i: usize = 0;
        while i < 2 * FFT_SIZE
            invariant
                i <= 2 * FFT_SIZE,
                buffer@.len() == i,
                forall|k: int| 0 <= k < i ==> buffer@[k] == fill,
            decreases 2 * FFT_SIZE - i,
        {
            buffer.push(fill);
            i = i + 1;
        }
        let ring = TimeRing { buffer, time_index };
        assert(ring@ =~= Seq::new(FFT_SIZE as nat, |i: int| fill));
        assert(ring.buffer_view() =~= Seq::new(2 * FFT_SIZE as nat, |i: int| fill));
        ring
    }

    /// A ring whose window holds `fill` everywhere, with time index 0.
    pub fn new(fill: T) -> (ring: Self)
        ensures
            ring.wf(),
            ring@ == Seq::new(FFT_SIZE as nat, |i: int| fill),
            ring.buffer_view() == Seq::new(2 * FFT_SIZE as nat, |i: int| fill),
            ring.time_index_spec() == 0,
    {
        Self::starting_at(fill, 0)
    }

    /// The whole buffer, both halves.
    pub fn into_buffer(self) -> (buffer: Vec<T>)
        ensures
            buffer@ == self.buffer_view(),
    {
        self.buffer
    }

    /// The current time index.
    pub fn time_index(&self) -> (r: usize)
        requires
            self.wf(),
        ensures
            r == self.time_index_spec(),
            r < FFT_SIZE,
            r % BUFF_SIZE == 0,
    {
        self.time_index
    }

    /// Writes a chunk of values at the time index, into both halves of the
    /// buffer. At most `BUFF_SIZE` values are taken; the time index stays.
    /// Seen through the window: its first entries become the chunk.
    pub fn write_chunk(&mut self, values: &Vec<T>)
        requires
            old(self).wf(),
        ensures
            final(self).wf(),
            final(self).time_index_spec() == old(self).time_index_spec(),
            final(self)@ == overwrite_prefix(old(self)@, values@.take(chunk_len(values@.len()) as int)),
            final(self).buffer_view() == written(
                old(self).buffer_view(),
                old(self).time_index_spec() as int,
                values@.take(chunk_len(values@.len()) as int),
            ),
    {
        let n: usize = if values.len() < BUFF_SIZE { values.len() } else { BUFF_SIZE };
        let ti: usize = self.time_index;
        let ghost old_buf = self.buffer@;
        assert(ti + BUFF_SIZE <= FFT_SIZE);
        let mut i: usize = 0;
        while i < n
            invariant
                n == chunk_len(values@.len()),
                n <= BUFF_SIZE,
                n <= values@.len(),
                ti == self.time_index,
                ti + BUFF_SIZE <= FFT_SIZE,
                i <= n,
                old_buf.len() == 2 * FFT_SIZE,
                self.buffer@.len() == 2 * FFT_SIZE,
                forall|k: int| 0 <= k < 2 * FFT_SIZE ==> #[trigger] self.buffer@[k] == (
                    if ti <= k < ti + i {
                        values@[k - ti]
                    } else if FFT_SIZE + ti <= k < FFT_SIZE + ti + i {
                        values@[k - FFT_SIZE - ti]
                    } else {
                        old_buf[k]
                    }),
            decreases n - i,
        {
            let v: T = values[i];
            self.buffer[ti + i] = v;
            self.buffer[FFT_SIZE + ti + i] = v;
            i = i + 1;
        }
        assert forall|j: int| 0 <= j < FFT_SIZE implies #[trigger] self.buffer@[j] == self.buffer@[j + FFT_SIZE] by {
            assert(old_buf[j] == old_buf[j + FFT_SIZE]);
        }
        assert(self@ =~= overwrite_prefix(old(self)@, values@.take(n as int)));
        assert(self.buffer_view() =~= written(old_buf, ti as int, values@.take(n as int)));
    }

    /// Moves the time index on by one chunk, wrapping at `FFT_SIZE`. Seen
    /// through the window: the window rotates left by `BUFF_SIZE`.
    pub fn advance(&mut self)
        requires
            old(self).wf(),
        ensures
            final(self).wf(),
            final(self).time_index_spec() == next_time_index(old(self).time_index_spec() as int),
            final(self)@ == rotate_left(old(self)@, BUFF_SIZE as int),
            final(self).buffer_view() == old(self).buffer_view(),
    {
        let ghost old_ring = *self;
        let ti: usize = self.time_index;
        assert(ti + BUFF_SIZE <= FFT_SIZE);
        self.time_index = (ti + BUFF_SIZE) % FFT_SIZE;
        assert forall|p: int| 0 <= p < FFT_SIZE implies #[trigger] self@[p] == rotate_left(old_ring@, BUFF_SIZE as int)[p] by {
            if ti + BUFF_SIZE < FFT_SIZE {
                if p + BUFF_SIZE < FFT_SIZE {
                    assert((p + BUFF_SIZE) % (FFT_SIZE as int) == p + BUFF_SIZE);
                } else {
                    assert((p + BUFF_SIZE) % (FFT_SIZE as int) == p + BUFF_SIZE - FFT_SIZE);
                    assert(old_ring.buffer@[ti + BUFF_SIZE + p - FFT_SIZE] == old_ring.buffer@[ti + BUFF_SIZE + p - FFT_SIZE + FFT_SIZE]);
                }
            } else {
                assert(self.time_index == 0);
                if p < ti {
                    assert((p + BUFF_SIZE) % (FFT_SIZE as int) == p + BUFF_SIZE);
                    assert(old_ring.buffer@[p] == old_ring.buffer@[p + FFT_SIZE]);
                } else {
                    assert((p + BUFF_SIZE) % (FFT_SIZE as int) == p + BUFF_SIZE - FFT_SIZE);
                }
            }
        }
        assert(self@ =~= rotate_left(old_ring@, BUFF_SIZE as int));
    }

    /// A copy of the window: the `FFT_SIZE` values starting at the time index.
    pub fn window(&self) -> (w: Vec<T>)
        requires
            self.wf(),
        ensures
            w@ == self@,
            w@.len() == FFT_SIZE,
    {
        let ti: usize = self.time_index;
        let mut w: Vec<T> = Vec::with_capacity(FFT_SIZE);
        let mut i: usize = 0;
        while i < FFT_SIZE
            invariant
                ti == self.time_index,
                ti < FFT_SIZE,
                self.buffer@.len() == 2 * FFT_SIZE,
                i <= FFT_SIZE,
                w@ == self.buffer@.subrange(ti as int, ti + i),
            decreases FFT_SIZE - i,
        {
            w.push(self.buffer[ti + i]);
            i = i + 1;
            assert(w@ =~= self.buffer@.subrange(ti as int, ti + i));
        }
        w
    }

    /// Takes in one chunk of input: writes it at the time index, then moves
    /// the time index on. A full chunk shifts the window: the oldest
    /// `BUFF_SIZE` values leave it and the chunk enters at its end.
    pub fn push_chunk(&mut self, values: &Vec<T>)
        requires
            old(self).wf(),
        ensures
            final(self).wf(),
            final(self).time_index_spec() == next_time_index(old(self).time_index_spec() as int),
            final(self)@ == rotate_left(
                overwrite_prefix(old(self)@, values@.take(chunk_len(values@.len()) as int)),
                BUFF_SIZE as int,
            ),
            values@.len() >= BUFF_SIZE ==> final(self)@ == old(self)@.skip(BUFF_SIZE as int) + values@.take(
                BUFF_SIZE as int,
            ),
            final(self).buffer_view() == written(
                old(self).buffer_view(),
                old(self).time_index_spec() as int,
                values@.take(chunk_len(values@.len()) as int),
            ),
    {
        self.write_chunk(values);
        self.advance();
        proof {
            if values@.len() >= BUFF_SIZE {
                law_full_chunk_shifts_window(old(self)@, values@.take(BUFF_SIZE as int));
            }
        }
    }
}

/// `buffer` with `values` written at `time_index` in both halves.
pub open spec fn written<T>(buffer: Seq<T>, time_index: int, values: Seq<T>) -> Seq<T> {
    Seq::new(
        buffer.len(),
        |k: int|
            if time_index <= k < time_index + values.len() {
                values[k - time_index]
            } else if FFT_SIZE + time_index <= k < FFT_SIZE + time_index + values.len() {
                values[k - FFT_SIZE - time_index]
            } else {
                buffer[k]
            },
    )
}

/// One chunk of input on its own, as the data stream handles it: a fresh
/// buffer of `2 * FFT_SIZE` copies of `fill` with the chunk (at most
/// `BUFF_SIZE` values) written at `time_index` in both halves, and the time
/// index moved on. The `FFT_SIZE` values at the new time index are the
/// window to transform: `fill` everywhere but for the chunk at its end.
pub fn chunk_buffer<T: Copy>(fill: T, time_index: usize, values: &Vec<T>) -> (r: (Vec<T>, usize))
    requires
        time_index < FFT_SIZE,
        time_index % BUFF_SIZE == 0,
    ensures
        r.0@ == written(
            Seq::new(2 * FFT_SIZE as nat, |i: int| fill),
            time_index as int,
            values@.take(chunk_len(values@.len()) as int),
        ),
        r.1 == next_time_index(time_index as int),
        r.1 < FFT_SIZE,
        r.1 % BUFF_SIZE == 0,
        r.0@.subrange(r.1 as int, r.1 + FFT_SIZE) == rotate_left(
            overwrite_prefix(
                Seq::new(FFT_SIZE as nat, |i: int| fill),
                values@.take(chunk_len(values@.len()) as int),
            ),
            BUFF_SIZE as int,
        ),
        values@.len() >= BUFF_SIZE ==> r.0@.subrange(r.1 as int, r.1 + FFT_SIZE) == Seq::new(
            (FFT_SIZE - BUFF_SIZE) as nat,
            |i: int| fill,
        ) + values@.take(BUFF_SIZE as int),
{
    let mut ring = TimeRing::starting_at(fill, time_index);
    let ghost fills = ring@;
    ring.push_chunk(values);
    let next = ring.time_index();
    proof {
        if values@.len() >= BUFF_SIZE {
            assert(fills.skip(BUFF_SIZE as int) =~= Seq::new((FFT_SIZE - BUFF_SIZE) as nat, |i: int| fill));
        }
    }
    let buffer = ring.into_buffer();
    (buffer, next)
}

/// Model of one display buffer: its samples, their scope and its size.
pub struct BufferModel<S> {
    pub data: Option<Seq<S>>,
    pub scope: Scope,
    pub size: usize,
}

/// Model of the display ring: the buffers, whether each has been rendered,
/// the buffer that the next package goes to, and the sample cursor.
pub struct StreamModel<S> {
    pub slots: Seq<BufferModel<S>>,
    pub rendered: Seq<bool>,
    pub current_buff: nat,
    pub current_sample: nat,
}

pub open spec fn buffer_model<S>(b: Sample<Vec<S>>) -> BufferModel<S> {
    BufferModel {
        data: match b.data_points {
            Some(v) => Some(v@),
            None => None,
        },
        scope: b.scope,
        size: b.size,
    }
}

/// The buffer index that follows `index` round the ring.
pub open spec fn next_index_spec(index: int) -> int {
    (index + 1) % (NUM_BUFFERS as int)
}

/// A buffer as built: `BUFF_SIZE` copies of `fill` over the scope `[0, BUFF_SIZE)`.
pub open spec fn initial_buffer<S>(fill: S) -> BufferModel<S> {
    BufferModel {
        data: Some(Seq::new(BUFF_SIZE as nat, |j: int| fill)),
        scope: Scope { start: 0, end: BUFF_SIZE, size: BUFF_SIZE },
        size: BUFF_SIZE,
    }
}

/// The buffer index reached from `index` after `k` steps round the ring.
pub open spec fn next_index_iter(index: int, k: nat) -> int
    decreases k,
{
    if k == 0 {
        index
    } else {
        next_index_spec(next_index_iter(index, (k - 1) as nat))
    }
}

/// After `k` steps round the ring from `index` the cursor is at `index + k`
/// modulo the number of buffers; in particular, `NUM_BUFFERS` packages in a
/// row bring the cursor back to the buffer it started at, having written
/// every buffer once.
pub proof fn law_cursor_cycles(index: int, k: nat)
    requires
        0 <= index < NUM_BUFFERS,
    ensures
        next_index_iter(index, k) == (index + k) % (NUM_BUFFERS as int),
        next_index_iter(index, NUM_BUFFERS as nat) == index,
{
    lemma_steps_mod(index, k);
    lemma_steps_mod(index, NUM_BUFFERS as nat);
}

proof fn lemma_steps_mod(index: int, k: nat)
    requires
        0 <= index < NUM_BUFFERS,
    ensures
        next_index_iter(index, k) == (index + k) % (NUM_BUFFERS as int),
    decreases k,
{
    if k > 0 {
        lemma_steps_mod(index, (k - 1) as nat);
        vstd::arithmetic::div_mod::lemma_add_mod_noop(index + k - 1, 1, NUM_BUFFERS as int);
    }
}

impl<S> StreamModel<S> {
    /// `NUM_BUFFERS` buffers of `BUFF_SIZE` samples each, and a cursor inside the ring.
    pub open spec fn wf(self) -> bool {
        &&& self.slots.len() == NUM_BUFFERS
        &&& self.rendered.len() == NUM_BUFFERS
        &&& self.current_buff < NUM_BUFFERS
        &&& forall|i: int|
            0 <= i < NUM_BUFFERS ==> (#[trigger] self.slots[i]).data is Some && self.slots[i].data->0.len()
                == BUFF_SIZE
    }

    /// The ring as built: every buffer holds `BUFF_SIZE` copies of `fill`
    /// over the scope `[0, BUFF_SIZE)`, nothing is rendered, both cursors at 0.
    pub open spec fn initial(fill: S) -> Self {
        StreamModel {
            slots: Seq::new(NUM_BUFFERS as nat, |i: int| initial_buffer(fill)),
            rendered: Seq::new(NUM_BUFFERS as nat, |i: int| false),
            current_buff: 0,
            current_sample: 0,
        }
    }

    /// Packaging: the samples and their scope replace the current buffer's,
    /// which is marked not rendered, and the cursor moves on round the ring.
    /// The flag returned is true when the buffer replaced had not been rendered.
    pub open spec fn package(self, samples: Seq<S>, scope: Scope) -> (Self, bool) {
        let c = self.current_buff as int;
        (
            StreamModel {
                slots: self.slots.update(
                    c,
                    BufferModel { data: Some(samples), scope: scope, size: self.slots[c].size },
                ),
                rendered: self.rendered.update(c, false),
                current_buff: next_index_spec(c) as nat,
                current_sample: self.current_sample,
            },
            !self.rendered[c],
        )
    }

    /// Rendering buffer `index`: a buffer not yet rendered hands out its
    /// samples and is marked rendered; a rendered one hands out nothing.
    pub open spec fn take_for_render(self, index: int) -> (Self, Option<Seq<S>>) {
        if self.rendered[index] {
            (self, None)
        } else {
            (
                StreamModel {
                    slots: self.slots,
                    rendered: self.rendered.update(index, true),
                    current_buff: self.current_buff,
                    current_sample: self.current_sample,
                },
                self.slots[index].data,
            )
        }
    }
}

/// Packaging keeps the ring well formed.
pub proof fn lemma_package_keeps_wf<S>(m: StreamModel<S>, samples: Seq<S>, scope: Scope)
    requires
        m.wf(),
        samples.len() == BUFF_SIZE,
    ensures
        m.package(samples, scope).0.wf(),
{
    let m1 = m.package(samples, scope).0;
    assert forall|i: int| 0 <= i < NUM_BUFFERS implies (#[trigger] m1.slots[i]).data is Some
        && m1.slots[i].data->0.len() == BUFF_SIZE by {
        if i != m.current_buff as int {
            assert(m1.slots[i] == m.slots[i]);
        }
    }
}

/// Rendering keeps the ring well formed.
pub proof fn law_render_keeps_wf<S>(m: StreamModel<S>, index: int)
    requires
        m.wf(),
        0 <= index < NUM_BUFFERS,
    ensures
        m.take_for_render(index).0.wf(),
{
}

/// What a render hands out of a buffer is what the last package put there:
/// right after packaging, rendering the buffer just written gives back the
/// packaged samples.
pub proof fn law_render_returns_packaged<S>(m: StreamModel<S>, samples: Seq<S>, scope: Scope)
    requires
        m.wf(),
        samples.len() == BUFF_SIZE,
    ensures
        m.package(samples, scope).0.take_for_render(m.current_buff as int).1 == Some(samples),
{
}

/// A buffer is handed out for rendering once: rendering it a second time,
/// with no package in between, hands out nothing and changes nothing.
pub proof fn law_render_once<S>(m: StreamModel<S>, index: int)
    requires
        m.wf(),
        0 <= index < NUM_BUFFERS,
    ensures
        m.take_for_render(index).0.take_for_render(index).1 is None,
        m.take_for_render(index).0.take_for_render(index).0 == m.take_for_render(index).0,
{
}

/// A package over a buffer that has been rendered since it was last written
/// reports no drop; one over a buffer still waiting to be rendered does.
pub proof fn law_drop_iff_unrendered<S>(m: StreamModel<S>, samples: Seq<S>, scope: Scope)
    requires
        m.wf(),
    ensures
        m.package(samples, scope).1 <==> !m.rendered[m.current_buff as int],
        !m.take_for_render(m.current_buff as int).0.package(samples, scope).1,
{
}

/// Packaging touches only the current buffer: every other buffer keeps its
/// samples and its rendered flag.
pub proof fn law_package_frame<S>(m: StreamModel<S>, samples: Seq<S>, scope: Scope, i: int)
    requires
        m.wf(),
        0 <= i < NUM_BUFFERS,
        i != m.current_buff,
    ensures
        m.package(samples, scope).0.slots[i] == m.slots[i],
        m.package(samples, scope).0.rendered[i] == m.rendered[i],
{
}

/// Packaging writes the current buffer without resizing it: the buffer
/// written holds the samples and scope given and keeps the size it had, the
/// ring stays well formed, every buffer keeps its size, and the cursor moves
/// to the next buffer round the ring.
pub proof fn law_package_keeps_sizes<S>(m: StreamModel<S>, samples: Seq<S>, scope: Scope)
    requires
        m.wf(),
        samples.len() == BUFF_SIZE,
    ensures
        ({
            let (m1, _) = m.package(samples, scope);
            let c = m.current_buff as int;
            &&& m1.slots[c].data == Some(samples)
            &&& m1.slots[c].scope == scope
            &&& m1.slots[c].size == m.slots[c].size
            &&& forall|i: int| 0 <= i < NUM_BUFFERS ==> (#[trigger] m1.slots[i]).size == m.slots[i].size
            &&& !m1.rendered[c]
            &&& m1.current_buff == (m.current_buff as int + 1) % (NUM_BUFFERS as int)
            &&& m1.current_sample == m.current_sample
        }),
{
}

/// Rendering a buffer touches only that buffer's rendered flag: no buffer's
/// samples, scope or size change, no other buffer's flag changes, the
/// cursors stay, and what is handed out is that buffer's samples exactly
/// when it had not been rendered.
pub proof fn law_render_touches_only_its_buffer<S>(m: StreamModel<S>, index: int)
    requires
        m.wf(),
        0 <= index < NUM_BUFFERS,
    ensures
        ({
            let (m1, out) = m.take_for_render(index);
            &&& m1.slots == m.slots
            &&& m1.rendered.len() == m.rendered.len()
            &&& forall|j: int| 0 <= j < NUM_BUFFERS && j != index ==> #[trigger] m1.rendered[j] == m.rendered[j]
            &&& m1.rendered[index]
            &&& m1.current_buff == m.current_buff
            &&& m1.current_sample == m.current_sample
            &&& (out is Some <==> !m.rendered[index])
            &&& (!m.rendered[index] ==> out == m.slots[index].data)
        }),
{
}

/// Rendering one buffer never hides another: a buffer not yet rendered can
/// still be rendered after any other buffer has been, and hands out its own
/// samples; a later package over it reports it dropped.
pub proof fn law_render_leaves_others_pending<S>(m: StreamModel<S>, index: int, other: int, samples: Seq<S>, scope: Scope)
    requires
        m.wf(),
        0 <= index < NUM_BUFFERS,
        0 <= other < NUM_BUFFERS,
        index != other,
        !m.rendered[other],
    ensures
        m.take_for_render(index).0.take_for_render(other).1 == m.slots[other].data,
        m.take_for_render(index).0.take_for_render(other).1 is Some,
        other == m.current_buff ==> m.take_for_render(index).0.package(samples, scope).1,
{
}

/// The ring of display buffers that captured samples are packaged into, and
/// that the renderer takes them out of.
#[derive(Clone, Debug)]
pub struct AudioStream<S> {
    pub buffers: Vec<Sample<Vec<S>>>,
    pub rendered: [bool; NUM_BUFFERS],
    pub current_buff: usize,
    pub current_sample: usize,
}

impl<S> View for AudioStream<S> {
    type V = StreamModel<S>;

    open spec fn view(&self) -> StreamModel<S> {
        StreamModel {
            slots: Seq::new(self.buffers@.len(), |i: int| buffer_model(self.buffers@[i])),
            rendered: self.rendered@,
            current_buff: self.current_buff as nat,
            current_sample: self.current_sample as nat,
        }
    }
}

/// A copy of a vector of samples.
fn copy_samples<S: Copy>(v: &Vec<S>) -> (r: Vec<S>)
    ensures
        r@ == v@,
{
    let mut r: Vec<S> = Vec::with_capacity(v.len());
    let mut i: usize = 0;
    while i < v.len()
        invariant
            i <= v@.len(),
            r@ == v@.take(i as int),
        decreases v@.len() - i,
    {
        r.push(v[i]);
        i = i + 1;
        assert(r@ =~= v@.take(i as int));
    }
    assert(v@.take(v@.len() as int) =~= v@);
    r
}

/// The buffer index that follows `index` round the ring.
pub fn next_buffer_index(index: usize) -> (r: usize)
    requires
        index < NUM_BUFFERS,
    ensures
        r == next_index_spec(index as int),
        r < NUM_BUFFERS,
{
    (index + 1) % NUM_BUFFERS
}

impl<S: Copy> AudioStream<S> {
    /// The ring as built, with every sample set to `fill`.
    pub fn with_fill(fill: S) -> (stream: Self)
        ensures
            stream@ == StreamModel::<S>::initial(fill),
            stream@.wf(),
    {
        let mut cfg_samples: Vec<S> = Vec::with_capacity(BUFF_SIZE);
        let mut j: usize = 0;
        while j < BUFF_SIZE
            invariant
                j <= BUFF_SIZE,
                cfg_samples@ == Seq::new(j as nat, |k: int| fill),
            decreases BUFF_SIZE - j,
        {
            cfg_samples.push(fill);
            j = j + 1;
            assert(cfg_samples@ =~= Seq::new(j as nat, |k: int| fill));
        }
        let cfg_scope = Scope::new(0, BUFF_SIZE);
        let mut cfg_buffers: Vec<Sample<Vec<S>>> = Vec::with_capacity(NUM_BUFFERS);
        let mut i: usize = 0;
        while i < NUM_BUFFERS
            invariant
                i <= NUM_BUFFERS,
                cfg_samples@ == Seq::new(BUFF_SIZE as nat, |k: int| fill),
                cfg_scope == (Scope { start: 0, end: BUFF_SIZE, size: BUFF_SIZE }),
                cfg_buffers@.len() == i,
                forall|k: int| 0 <= k < i ==> buffer_model(#[trigger] cfg_buffers@[k]) == initial_buffer(fill),
            decreases NUM_BUFFERS - i,
        {
            let samples = copy_samples(&cfg_samples);
            let ghost samples_view = samples@;
            let sample = Sample::new(Some(samples), Some(cfg_scope), None);
            assert(samples_view =~= initial_buffer(fill).data->0);
            assert(buffer_model(sample) == initial_buffer(fill));
            cfg_buffers.push(sample);
            i = i + 1;
        }
        let stream = AudioStream {
            buffers: cfg_buffers,
            rendered: [false; NUM_BUFFERS],
            current_buff: 0,
            current_sample: 0,
        };
        assert(stream@.slots =~= StreamModel::<S>::initial(fill).slots);
        assert(stream@.rendered =~= StreamModel::<S>::initial(fill).rendered);
        stream
    }

    /// Packages processed samples into the current buffer: they replace its
    /// samples, their scope replaces its scope, it is marked not rendered and
    /// the cursor moves on. Returns true when the buffer replaced had not been
    /// rendered yet.
    pub fn package_samples(&mut self, samples: Vec<S>, scope: Scope) -> (dropped: bool)
        requires
            old(self)@.wf(),
            samples@.len() == BUFF_SIZE,
        ensures
            final(self)@ == old(self)@.package(samples@, scope).0,
            dropped == old(self)@.package(samples@, scope).1,
            final(self)@.wf(),
            dropped == !old(self).rendered@[old(self).current_buff as int],
            final(self).buffers@[old(self).current_buff as int].data_points matches Some(v) && v@ == samples@,
            final(self).buffers@[old(self).current_buff as int].scope == scope,
            final(self).buffers@[old(self).current_buff as int].size == old(self).buffers@[old(
                self,
            ).current_buff as int].size,
            forall|i: int|
                0 <= i < NUM_BUFFERS && i != old(self).current_buff ==> #[trigger] final(self).buffers@[i]
                    == old(self).buffers@[i],
            forall|i: int|
                0 <= i < NUM_BUFFERS && i != old(self).current_buff ==> #[trigger] final(self).rendered@[i]
                    == old(self).rendered@[i],
            !final(self).rendered@[old(self).current_buff as int],
            final(self).current_buff == (old(self).current_buff as int + 1) % (NUM_BUFFERS as int),
    {
        let ghost old_model = self@;
        let c: usize = self.current_buff;
        let size: usize = self.buffers[c].size;
        let was_rendered: bool = self.rendered[c];
        self.buffers.set(c, Sample { data_points: Some(samples), scope: scope, size: size });
        self.rendered[c] = false;
        self.current_buff = next_buffer_index(c);
        proof {
            lemma_package_keeps_wf(old_model, samples@, scope);
        }
        assert(self@.slots =~= old_model.package(samples@, scope).0.slots);
        !was_rendered
    }

    /// Takes buffer `index` for rendering: if it has not been rendered, marks
    /// it rendered and returns a copy of its samples; otherwise returns None.
    pub fn take_for_render(&mut self, index: usize) -> (taken: Option<Vec<S>>)
        requires
            old(self)@.wf(),
            index < NUM_BUFFERS,
        ensures
            final(self)@ == old(self)@.take_for_render(index as int).0,
            match taken {
                Some(v) => old(self)@.take_for_render(index as int).1 == Some(v@),
                None => old(self)@.take_for_render(index as int).1 is None,
            },
            final(self)@.wf(),
            final(self).buffers@ == old(self).buffers@,
            forall|j: int|
                0 <= j < NUM_BUFFERS && j != index ==> #[trigger] final(self).rendered@[j] == old(self).rendered@[j],
            final(self).rendered@[index as int],
            final(self).current_buff == old(self).current_buff,
            final(self).current_sample == old(self).current_sample,
            taken is Some <==> !old(self).rendered@[index as int],
            taken matches Some(v) ==> old(self).buffers@[index as int].data_points matches Some(d) && v@ == d@,
    {
        if self.rendered[index] {
            None
        } else {
            let out: Vec<S> = match &self.buffers[index].data_points {
                Some(v) => copy_samples(v),
                None => Vec::new(),
            };
            self.rendered[index] = true;
            assert(self@.rendered =~= old(self)@.rendered.update(index as int, true));
            assert(self@.slots =~= old(self)@.slots);
            assert(buffer_model(self.buffers@[index as int]) == old(self)@.slots[index as int]);
            Some(out)
        }
    }

    /// One step of the render walk: if buffer `index` has not been rendered,
    /// takes it for rendering and moves the cursor on round the ring;
    /// otherwise hands out nothing and leaves the cursor, which ends the frame.
    pub fn render_step(&mut self, index: usize) -> (r: (usize, Option<Vec<S>>))
        requires
            old(self)@.wf(),
            index < NUM_BUFFERS,
        ensures
            final(self)@ == old(self)@.take_for_render(index as int).0,
            match r.1 {
                Some(v) => old(self)@.take_for_render(index as int).1 == Some(v@),
                None => old(self)@.take_for_render(index as int).1 is None,
            },
            r.0 == (if r.1 is Some { next_index_spec(index as int) } else { index as int }),
            r.0 < NUM_BUFFERS,
            final(self)@.wf(),
            final(self).buffers@ == old(self).buffers@,
            forall|j: int|
                0 <= j < NUM_BUFFERS && j != index ==> #[trigger] final(self).rendered@[j] == old(self).rendered@[j],
            final(self).rendered@[index as int],
            final(self).current_buff == old(self).current_buff,
            final(self).current_sample == old(self).current_sample,
            r.1 is Some <==> !old(self).rendered@[index as int],
    {
        let taken = self.take_for_render(index);
        let next: usize = if taken.is_some() { next_buffer_index(index) } else { index };
        (next, taken)
    }
}

impl<S: Copy + Default> Default for AudioStream<S> {
    /// The ring as built, with every sample set to the sample type's default.
    fn default() -> (stream: Self)
        ensures
            exists|fill: S| call_ensures(S::default, (), fill) && stream@ == StreamModel::<S>::initial(fill),
            stream@.wf(),
    {
        let fill = S::default();
        let stream = Self::with_fill(fill);
        assert(call_ensures(S::default, (), fill) && stream@ == StreamModel::<S>::initial(fill));
        stream
    }
}

} // verus!
