use vstd::prelude::*;

verus! {

/// Number of cells of the framebuffer.
pub const SCREEN_LEN: usize = 64000;

/// A palette colour with 6-bit channels, as the display's colour table takes it.
#[derive(Clone, Copy, Debug, PartialEq, Eq, Structural)]
pub struct Vga18 {
    pub red: u8,
    pub green: u8,
    pub blue: u8,
}

/// An all-zero frame.
pub open spec fn blank_frame() -> Seq<u8> {
    Seq::new(SCREEN_LEN as nat, |i: int| 0u8)
}

/// Cell `(row, col)` of the framebuffer lies under an image of `w` x `h`
/// pixels whose top-left corner is placed at `(x, y)`.
pub open spec fn covers(x: int, y: int, w: int, h: int, row: int, col: int) -> bool {
    y <= row < y + h && x <= col < x + w
}

/// The frame `fb` after compositing the row-major image `px` of `w` x `h`
/// pixels with its top-left corner at `(x, y)`: every cell that the image
/// covers takes the image's pixel, every other cell keeps its value.
pub open spec fn blit_spec(fb: Seq<u8>, x: int, y: int, w: int, h: int, px: Seq<u8>) -> Seq<u8> {
    Seq::new(
        fb.len(),
        |i: int|
            if covers(x, y, w, h, i / 320, i % 320) {
                px[(i / 320 - y) * w + (i % 320 - x)]
            } else {
                fb[i]
            },
    )
}

/// Drawing an image a second time over itself changes nothing, and after a
/// `clear` the same draw gives the frame that it gave over the old one in
/// every cell that the image covers, and zero elsewhere; over a cleared
/// frame it reproduces that frame exactly.
pub proof fn lemma_blit_after_clear(fb: Seq<u8>, x: int, y: int, w: nat, h: nat, px: Seq<u8>)
    requires
        fb.len() == SCREEN_LEN,
    ensures
        blit_spec(blit_spec(fb, x, y, w as int, h as int, px), x, y, w as int, h as int, px)
            == blit_spec(fb, x, y, w as int, h as int, px),
        forall|i: int|
            0 <= i < SCREEN_LEN ==> #[trigger] blit_spec(blank_frame(), x, y, w as int, h as int, px)[i]
                == if covers(x, y, w as int, h as int, i / 320, i % 320) {
                blit_spec(fb, x, y, w as int, h as int, px)[i]
            } else {
                0u8
            },
        fb == blank_frame() ==> blit_spec(blank_frame(), x, y, w as int, h as int, px) == blit_spec(
            fb,
            x,
            y,
            w as int,
            h as int,
            px,
        ),
{
    let f1 = blit_spec(fb, x, y, w as int, h as int, px);
    assert(blit_spec(f1, x, y, w as int, h as int, px) =~= f1);
}

/// An image wholly left of column 0 (`x <= -w`) or wholly below the last
/// row (`y >= 200`) leaves the frame as it was.
pub proof fn lemma_blit_offscreen(fb: Seq<u8>, x: int, y: int, w: nat, h: nat, px: Seq<u8>)
    requires
        fb.len() == SCREEN_LEN,
        x <= -w || y >= 200,
    ensures
        blit_spec(fb, x, y, w as int, h as int, px) == fb,
{
    assert(blit_spec(fb, x, y, w as int, h as int, px) =~= fb);
}

/// A 320 x 200 image drawn at the origin becomes the frame, byte for byte.
pub proof fn lemma_blit_full_screen(fb: Seq<u8>, px: Seq<u8>)
    requires
        fb.len() == SCREEN_LEN,
        px.len() == SCREEN_LEN,
    ensures
        blit_spec(fb, 0, 0, 320, 200, px) == px,
{
    assert forall|i: int| 0 <= i < SCREEN_LEN implies #[trigger] blit_spec(fb, 0, 0, 320, 200, px)[i]
        == px[i] by {
        assert(0 <= i / 320 < 200 && (i / 320) * 320 + i % 320 == i) by (nonlinear_arith)
            requires
                0 <= i < 64000,
        ;
    }
    assert(blit_spec(fb, 0, 0, 320, 200, px) =~= px);
}


/// An off-screen 320 x 200 frame of palette indices, stored row by row.
pub struct Mode13hDisplay {
    buffer: Vec<u8>,
}

impl View for Mode13hDisplay {
    type V = Seq<u8>;

    closed spec fn view(&self) -> Seq<u8> {
        self.buffer@
    }
}

impl Mode13hDisplay {
    /// The frame holds exactly one byte per cell.
    pub open spec fn wf(&self) -> bool {
        self@.len() == SCREEN_LEN
    }

    /// The frame to publish on the display: every cell, row by row.
    pub fn flush(&self) -> (r: &[u8])
        ensures
            r@ == self@,
    {
        self.buffer.as_slice()
    }

    /// Resets every cell to index 0.
    pub fn clear(&mut self)
        ensures
            final(self)@ == blank_frame(),
    {
        self.buffer = zeroed_frame();
    }
    /// Composites the row-major image `bytes` of `src_width` x `src_height`
    /// pixels onto the frame with its top-left corner at column `screen_col`,
    /// row `screen_line`, clipped to the frame on all four sides.
    pub fn copy_to_screen(
        &mut self,
        screen_col: isize,
        screen_line: isize,
        src_width: usize,
        src_height: usize,
        bytes: &[u8],
    )
        requires
            old(self).wf(),
            src_width * src_height <= bytes@.len(),
        ensures
            final(self)@ == blit_spec(
                old(self)@,
                screen_col as int,
                screen_line as int,
                src_width as int,
                src_height as int,
                bytes@,
            ),
    {
        let ghost fb0 = self@;
        let src_len: usize = bytes.len();
        let x: i128 = screen_col as i128;
        let y: i128 = screen_line as i128;
        let w: i128 = src_width as i128;
        // the visible span of columns is the same on every row
        let col_start: i128 = if x >= 0 { x } else { 0 };
        let col_end: i128 = if x + w < 320 { x + w } else { 320 };
        if col_start >= col_end {
            proof {
                assert(blit_spec(fb0, x as int, y as int, w as int, src_height as int, bytes@) =~= fb0);
            }
            return;
        }
        let mut l: usize = 0;
        while l < src_height && (l as i128) + y < 200
            invariant
                self.wf(),
                l <= src_height,
                fb0.len() == SCREEN_LEN,
                x == screen_col,
                y == screen_line,
                w == src_width,
                col_start == (if x >= 0 { x } else { 0 }),
                col_end == (if x + w < 320 { x + w } else { 320 }),
                0 <= col_start < col_end <= 320,
                src_width * src_height <= bytes@.len(),
                src_len == bytes@.len(),
                self@ == blit_spec(fb0, x as int, y as int, w as int, l as int, bytes@),
            decreases src_height - l,
        {
            let ghost prev = self@;
            let ly: i128 = l as i128 + y;
            if ly >= 0 {
                proof {
                    assert(l * src_width + src_width <= src_width * src_height) by (nonlinear_arith)
                        requires l < src_height;
                }
                let row_start: usize = (ly * 320) as usize;
                let src_row: usize = l * src_width;
                let mut c: i128 = col_start;
                while c < col_end
                    invariant
                        self.wf(),
                        0 <= ly < 200,
                        ly == l + y,
                        l < src_height,
                        row_start == ly * 320,
                        src_row == l * w,
                        src_row + w <= bytes@.len(),
                        src_len == bytes@.len(),
                        x == screen_col,
                        w == src_width,
                        col_start == (if x >= 0 { x } else { 0 }),
                        col_end == (if x + w < 320 { x + w } else { 320 }),
                        0 <= col_start <= c <= col_end <= 320,
                        prev.len() == SCREEN_LEN,
                        forall|i: int|
                            0 <= i < SCREEN_LEN ==> #[trigger] self@[i] == (if i / 320 == ly
                                && col_start <= i % 320 < c {
                                bytes@[src_row + (i % 320 - x)]
                            } else {
                                prev[i]
                            }),
                    decreases col_end - c,
                {
                    let v = bytes[src_row + (c - x) as usize];
                    let k: usize = row_start + c as usize;
                    proof {
                        assert(k / 320 == ly && k % 320 == c) by (nonlinear_arith)
                            requires k == ly * 320 + c, 0 <= c < 320, 0 <= ly;
                    }
                    self.buffer[k] = v;
                    c += 1;
                }
                proof {
                    assert forall|i: int| 0 <= i < SCREEN_LEN implies #[trigger] self@[i] == blit_spec(
                        fb0, x as int, y as int, w as int, l + 1, bytes@)[i] by {
                        if i / 320 == ly && col_start <= i % 320 < col_end {
                            assert((i / 320 - y) * w == src_row);
                        }
                    }
                    assert(self@ =~= blit_spec(fb0, x as int, y as int, w as int, l + 1, bytes@));
                }
            } else {
                proof {
                    assert(blit_spec(fb0, x as int, y as int, w as int, l as int, bytes@) =~= blit_spec(
                        fb0, x as int, y as int, w as int, l + 1, bytes@));
                }
            }
            l += 1;
        }
        proof {
            assert(blit_spec(fb0, x as int, y as int, w as int, l as int, bytes@) =~= blit_spec(
                fb0, x as int, y as int, w as int, src_height as int, bytes@));
        }
    }
}

fn zeroed_frame() -> (r: Vec<u8>)
    ensures
        r@ == blank_frame(),
{
    let mut v: Vec<u8> = Vec::with_capacity(SCREEN_LEN);
    let mut i: usize = 0;
    while i < SCREEN_LEN
        invariant
            i <= SCREEN_LEN,
            v@ == Seq::new(i as nat, |k: int| 0u8),
        decreases SCREEN_LEN - i,
    {
        v.push(0u8);
        i += 1;
    }
    v
}

impl Default for Mode13hDisplay {
    fn default() -> (r: Self)
        ensures
            r@ == blank_frame(),
    {
        Mode13hDisplay { buffer: zeroed_frame() }
    }
}

} // verus!
