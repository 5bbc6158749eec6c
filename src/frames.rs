use vstd::prelude::*;

verus! {

/// Number of frames of `f` bytes that a source of `l` bytes yields: `ceil(l / f)`.
pub open spec fn frame_count(l: nat, f: nat) -> nat
    recommends
        f > 0,
{
    ((l + f - 1) as nat / f) as nat
}

/// Frame `i` of `data` cut into frames of `f` bytes, the bytes past the end
/// of the source being zero.
pub open spec fn frame_at(data: Seq<u8>, f: nat, i: nat) -> Seq<u8> {
    Seq::new(f, |j: int| if i * f + j < data.len() { data[i * f + j] } else { 0u8 })
}

/// `chunk` followed by zeros up to `f` bytes.
pub open spec fn padded(chunk: Seq<u8>, f: nat) -> Seq<u8> {
    Seq::new(f, |j: int| if j < chunk.len() { chunk[j] } else { 0u8 })
}

/// Copies `chunk` into a frame of `frame_size` bytes, zero-padding the tail.
/// Used for the last, short read of a streamed source.
pub fn pad_frame(chunk: &[u8], frame_size: usize) -> (r: Vec<u8>)
    requires
        chunk@.len() <= frame_size,
    ensures
        r@ == padded(chunk@, frame_size as nat),
{
    let mut r: Vec<u8> = Vec::with_capacity(frame_size);
    let mut j: usize = 0;
    while j < frame_size
        invariant
            j <= frame_size,
            chunk@.len() <= frame_size,
            r@.len() == j,
            forall|k: int| 0 <= k < j ==> r@[k] == padded(chunk@, frame_size as nat)[k],
        decreases frame_size - j,
    {
        if j < chunk.len() {
            r.push(chunk[j]);
        } else {
            r.push(0u8);
        }
        j = j + 1;
    }
    assert(r@ =~= padded(chunk@, frame_size as nat));
    r
}

/// The `frame_size` bytes of `data` from `start` on, zero past the end of the source.
fn frame_of(data: &Vec<u8>, frame_size: usize, start: usize) -> (r: Vec<u8>)
    requires
        start as nat + frame_size as nat <= usize::MAX,
    ensures
        r@ == Seq::new(
            frame_size as nat,
            |j: int| if start + j < data@.len() { data@[start + j] } else { 0u8 },
        ),
{
    let mut r: Vec<u8> = Vec::with_capacity(frame_size);
    let mut j: usize = 0;
    while j < frame_size
        invariant
            j <= frame_size,
            start as nat + frame_size as nat <= usize::MAX,
            r@.len() == j,
            forall|k: int|
                0 <= k < j ==> r@[k] == (if start + k < data@.len() {
                    data@[start + k]
                } else {
                    0u8
                }),
        decreases frame_size - j,
    {
        if start + j < data.len() {
            r.push(data[start + j]);
        } else {
            r.push(0u8);
        }
        j = j + 1;
    }
    assert(r@ =~= Seq::new(
        frame_size as nat,
        |j: int| if start + j < data@.len() { data@[start + j] } else { 0u8 },
    ));
    r
}

/// Frame `i` starts inside the source exactly when `i` is below the frame count.
pub proof fn lemma_frame_starts_inside(l: nat, f: nat, i: nat)
    requires
        f > 0,
    ensures
        i * f < l <==> i < frame_count(l, f),
{
    let c = frame_count(l, f);
    assert(c * f <= l + f - 1) by (nonlinear_arith)
        requires
            f > 0,
            c == ((l + f - 1) as nat / f) as nat,
    ;
    assert(l + f - 1 < c * f + f) by (nonlinear_arith)
        requires
            f > 0,
            c == ((l + f - 1) as nat / f) as nat,
    ;
    if i < c {
        assert(i * f + f <= c * f) by (nonlinear_arith)
            requires
                i < c,
        ;
    } else {
        assert(c * f <= i * f) by (nonlinear_arith)
            requires
                c <= i,
        ;
    }
}

/// A forward-only reader of fixed-size frames over a resident buffer.
pub struct FrameSegmenter {
    data: Vec<u8>,
    frame_size: usize,
    next_index: usize,
}

/// What a segmenter holds: the source, the frame size, and how many frames
/// it has handed out.
pub struct SegmenterView {
    pub data: Seq<u8>,
    pub frame_size: nat,
    pub next_index: nat,
}

impl View for FrameSegmenter {
    type V = SegmenterView;

    closed spec fn view(&self) -> SegmenterView {
        SegmenterView {
            data: self.data@,
            frame_size: self.frame_size as nat,
            next_index: self.next_index as nat,
        }
    }
}

impl FrameSegmenter {
    /// Fits in machine integers and has not run past the last frame.
    pub open spec fn wf(&self) -> bool {
        &&& self@.frame_size > 0
        &&& self@.data.len() + self@.frame_size <= usize::MAX
        &&& self@.next_index <= frame_count(self@.data.len(), self@.frame_size)
    }

    /// Starts segmenting `data` into frames of `frame_size` bytes.
    pub fn new(data: Vec<u8>, frame_size: usize) -> (r: FrameSegmenter)
        requires
            frame_size > 0,
            data@.len() + frame_size <= usize::MAX,
        ensures
            r.wf(),
            r@.data == data@,
            r@.frame_size == frame_size,
            r@.next_index == 0,
    {
        FrameSegmenter { data, frame_size, next_index: 0 }
    }

    /// Number of frames not yet handed out.
    pub open spec fn remaining(&self) -> nat {
        (frame_count(self@.data.len(), self@.frame_size) - self@.next_index) as nat
    }

    /// Hands out the next frame, or `None` once the source is exhausted.
    pub fn next_frame(&mut self) -> (r: Option<Vec<u8>>)
        requires
            old(self).wf(),
        ensures
            final(self).wf(),
            final(self)@.data == old(self)@.data,
            final(self)@.frame_size == old(self)@.frame_size,
            match r {
                Some(v) => {
                    &&& old(self)@.next_index < frame_count(old(self)@.data.len(), old(self)@.frame_size)
                    &&& v@ == frame_at(old(self)@.data, old(self)@.frame_size, old(self)@.next_index)
                    &&& final(self)@.next_index == old(self)@.next_index + 1
                },
                None => {
                    &&& old(self)@.next_index == frame_count(old(self)@.data.len(), old(self)@.frame_size)
                    &&& final(self)@.next_index == old(self)@.next_index
                },
            },
    {
        let f = self.frame_size;
        let l = self.data.len();
        let count = (l + f - 1) / f;
        if self.next_index >= count {
            return None;
        }
        proof {
            lemma_frame_starts_inside(l as nat, f as nat, self.next_index as nat);
        }
        let start = self.next_index * f;
        let frame = frame_of(&self.data, f, start);
        assert(frame@ =~= frame_at(self.data@, f as nat, self.next_index as nat));
        self.next_index = self.next_index + 1;
        Some(frame)
    }
}

/// Cuts `data` into `ceil(len / frame_size)` frames of `frame_size` bytes,
/// the last one zero-padded.
pub fn segment(data: &Vec<u8>, frame_size: usize) -> (r: Vec<Vec<u8>>)
    requires
        frame_size > 0,
        data@.len() + frame_size <= usize::MAX,
    ensures
        r@.len() == frame_count(data@.len(), frame_size as nat),
        forall|i: int|
            0 <= i < r@.len() ==> (#[trigger] r@[i])@ == frame_at(data@, frame_size as nat, i as nat),
{
    let mut seg = FrameSegmenter::new(data.clone(), frame_size);
    let mut r: Vec<Vec<u8>> = Vec::new();
    loop
        invariant
            seg.wf(),
            seg@.data == data@,
            seg@.frame_size == frame_size,
            r@.len() == seg@.next_index,
            forall|i: int|
                0 <= i < r@.len() ==> (#[trigger] r@[i])@ == frame_at(data@, frame_size as nat, i as nat),
        ensures
            r@.len() == frame_count(data@.len(), frame_size as nat),
        decreases seg.remaining(),
    {
        match seg.next_frame() {
            Some(fr) => r.push(fr),
            None => break,
        }
    }
    r
}

} // verus!
