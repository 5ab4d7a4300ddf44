//! Around the H.264 decoder of the remote screen: when to rebuild the scaler,
//! when a decoder is drained, and packing rows.

use vstd::prelude::*;

verus! {

/// One decoded frame, packed BGRA without row padding.
#[derive(Debug, Clone, PartialEq, Eq)]
pub struct DecodedBgra {
    pub width: u32,
    pub height: u32,
    pub bgra: Vec<u8>,
}

/// What a frame needs of the scaler: its pixel format, by number, and its size.
#[derive(Debug, Clone, Copy, PartialEq, Eq, Structural)]
pub struct ScalerSource {
    pub format: i32,
    pub width: u32,
    pub height: u32,
}

/// Whether the scaler must be rebuilt for a frame: the first time, and whenever
/// the format or the size changed, which is legal in mid-stream.
pub fn needs_scaler(current: Option<ScalerSource>, source: ScalerSource) -> (r: bool)
    ensures
        r == (current != Some(source)),
{
    match current {
        Some(c) => c != source,
        None => true,
    }
}

/// What asking a decoder for a frame gave.
#[derive(Debug, Clone, Copy, PartialEq, Eq, Structural)]
pub enum Received {
    Frame,
    /// Not enough data is buffered for a whole frame.
    Again,
    End,
    Failed,
}

/// What follows.
#[derive(Debug, Clone, Copy, PartialEq, Eq, Structural)]
pub enum DrainStep {
    /// Keep the frame and ask again.
    Keep,
    /// Everything that was ready has been taken.
    Done,
    Fail,
}

/// A decoder may give none, one or more frames for a packet, so it is asked until
/// it has no more. Having none ready is no error.
pub fn drain_step(received: Received) -> (r: DrainStep)
    ensures
        r == (match received {
            Received::Frame => DrainStep::Keep,
            Received::Again => DrainStep::Done,
            Received::End => DrainStep::Done,
            Received::Failed => DrainStep::Fail,
        }),
{
    match received {
        Received::Frame => DrainStep::Keep,
        Received::Again => DrainStep::Done,
        Received::End => DrainStep::Done,
        Received::Failed => DrainStep::Fail,
    }
}

/// The first `n` rows without their padding.
pub open spec fn packed_upto(src: Seq<u8>, stride: int, row: int, n: int) -> Seq<u8>
    decreases n,
{
    if n <= 0 {
        seq![]
    } else {
        packed_upto(src, stride, row, n - 1) + src.subrange(
            (n - 1) * stride,
            (n - 1) * stride + row,
        )
    }
}

proof fn lemma_row(stride: int, row: int, y: int, height: int, len: int)
    requires
        0 <= y < height,
        0 <= stride,
        0 <= row,
        (height - 1) * stride + row <= len,
    ensures
        0 <= y * stride,
        y * stride + row <= len,
{
    assert(0 <= y * stride <= (height - 1) * stride) by (nonlinear_arith)
        requires
            0 <= y <= height - 1,
            0 <= stride,
    ;
}

/// Strip the padding at the end of each row: every row of a frame begins a whole
/// stride after the one before.
pub fn pack_rows(src: &[u8], stride: usize, width: u32, height: u32) -> (r: DecodedBgra)
    requires
        4 * width <= usize::MAX,
        height > 0 ==> (height - 1) * stride + 4 * width <= src@.len(),
    ensures
        r.width == width,
        r.height == height,
        r.bgra@ == packed_upto(src@, stride as int, 4 * width, height as int),
{
    let row: usize = width as usize * 4;
    let mut packed: Vec<u8> = Vec::new();
    let mut y: u32 = 0;
    let ghost len = src@.len() as int;
    assert(packed@ =~= seq![]);
    while y < height
        invariant
            y <= height,
            row == 4 * width,
            len == src@.len(),
            len == src.len(),
            height > 0 ==> (height - 1) * stride + 4 * width <= len,
            packed@ == packed_upto(src@, stride as int, row as int, y as int),
        decreases height - y,
    {
        proof {
            lemma_row(stride as int, row as int, y as int, height as int, len);
        }
        let start: usize = y as usize * stride;
        let ghost done = packed@;
        let mut i: usize = 0;
        assert(packed@ =~= done + src@.subrange(start as int, start as int));
        while i < row
            invariant
                i <= row,
                start + row <= src.len(),
                packed@ == done + src@.subrange(start as int, start + i),
            decreases row - i,
        {
            packed.push(src[start + i]);
            assert(packed@ =~= done + src@.subrange(start as int, start + i + 1));
            i += 1;
        }
        y += 1;
    }
    DecodedBgra { width, height, bgra: packed }
}

proof fn lemma_packed_len(src: Seq<u8>, stride: int, row: int, n: int, height: int)
    requires
        0 <= n <= height,
        0 <= stride,
        0 <= row,
        height > 0 ==> (height - 1) * stride + row <= src.len(),
    ensures
        packed_upto(src, stride, row, n).len() == n * row,
    decreases n,
{
    if n > 0 {
        lemma_packed_len(src, stride, row, n - 1, height);
        lemma_row(stride, row, n - 1, height, src.len() as int);
        assert(n * row == (n - 1) * row + row) by (nonlinear_arith);
    } else {
        assert(n * row == 0) by (nonlinear_arith)
            requires
                n == 0,
        ;
    }
}

/// A packed frame has four bytes for each of its pixels, and nothing else.
pub proof fn law_packed_size(src: Seq<u8>, stride: int, width: int, height: int)
    requires
        0 <= stride,
        0 <= width,
        0 <= height,
        height > 0 ==> (height - 1) * stride + 4 * width <= src.len(),
    ensures
        packed_upto(src, stride, 4 * width, height).len() == height * (4 * width),
{
    lemma_packed_len(src, stride, 4 * width, height, height);
}

proof fn lemma_packed_byte(
    src: Seq<u8>,
    stride: int,
    row: int,
    n: int,
    height: int,
    y: int,
    i: int,
)
    requires
        0 <= y < n <= height,
        0 <= i < row,
        0 <= stride,
        (height - 1) * stride + row <= src.len(),
    ensures
        0 <= y * row + i < packed_upto(src, stride, row, n).len(),
        packed_upto(src, stride, row, n)[y * row + i] == src[y * stride + i],
    decreases n,
{
    lemma_packed_len(src, stride, row, n, height);
    lemma_packed_len(src, stride, row, n - 1, height);
    lemma_row(stride, row, n - 1, height, src.len() as int);
    assert(0 <= y * row && y * row + row <= n * row) by (nonlinear_arith)
        requires
            0 <= y < n,
            0 <= row,
    ;
    if y < n - 1 {
        lemma_packed_byte(src, stride, row, n - 1, height, y, i);
    }
}

/// Packing moves every byte of every row to its place: only padding is lost.
pub proof fn law_packed_bytes(
    src: Seq<u8>,
    stride: int,
    width: int,
    height: int,
    y: int,
    i: int,
)
    requires
        0 <= stride,
        0 <= y < height,
        0 <= i < 4 * width,
        (height - 1) * stride + 4 * width <= src.len(),
    ensures
        packed_upto(src, stride, 4 * width, height)[y * (4 * width) + i] == src[y * stride + i],
{
    lemma_packed_byte(src, stride, 4 * width, height, height, y, i);
}

} // verus!
