//! Transforms of tightly packed RGBA8 pixel buffers.

use vstd::prelude::*;
use crate::grid::{cell_index, lemma_cell_join, lemma_cell_split, lemma_cell_in_grid, lemma_row_in_grid};

verus! {

/// `source` with its first `height` rows of `width` pixels in reverse order; bytes past
/// those rows read as zero.
pub open spec fn flipped_rgba(width: nat, height: nat, source: Seq<u8>) -> Seq<u8> {
    let row: int = (4 * width) as int;
    Seq::new(
        source.len(),
        |i: int|
            if i < height * row {
                source[(height - 1 - i / row) * row + i % row]
            } else {
                0u8
            },
    )
}

/// A buffer of `n` zero bytes.
pub fn zeroed_bytes(n: usize) -> (bytes: Vec<u8>)
    ensures
        bytes@ == Seq::new(n as nat, |i: int| 0u8),
{
    let mut bytes: Vec<u8> = Vec::with_capacity(n);
    let mut i: usize = 0;
    while i < n
        invariant
            i <= n,
            bytes@ == Seq::new(i as nat, |j: int| 0u8),
        decreases n - i,
    {
        bytes.push(0u8);
        i = i + 1;
    }
    bytes
}

/// Reverses the order of the first `height` rows of an RGBA8 image `width` pixels wide.
/// The result has the length of `source`; bytes past those rows are zero.
pub fn flip_rgba_rows(width: u32, height: u32, source: &[u8]) -> (flipped: Vec<u8>)
    requires
        4 * width <= u32::MAX,
        height * (4 * width) <= source@.len(),
    ensures
        flipped@ == flipped_rgba(width as nat, height as nat, source@),
{
    let row_len: usize = (width * 4) as usize;
    let n: usize = source.len();
    let h: usize = height as usize;
    let mut flipped = zeroed_bytes(n);
    let mut y: usize = 0;
    while y < h
        invariant
            row_len == 4 * width,
            h == height,
            n == source@.len(),
            h * row_len <= n,
            flipped@.len() == n,
            y <= h,
            forall|i: int|
                0 <= i < n && (i < (h - y) * row_len || i >= h * row_len) ==> flipped@[i] == 0,
            forall|i: int|
                (h - y) * row_len <= i < h * row_len ==> flipped@[i] == source@[(h - 1 - i
                    / row_len as int) * row_len + i % row_len as int],
        decreases h - y,
    {
        assert(y * row_len + row_len <= h * row_len && (h - 1 - y) * row_len + row_len == (h - y)
            * row_len && (h - y) * row_len <= h * row_len) by (nonlinear_arith)
            requires
                y < h,
        ;
        let src_start: usize = y * row_len;
        let dst_start: usize = (h - 1 - y) * row_len;
        let mut k: usize = 0;
        while k < row_len
            invariant
                row_len == 4 * width,
                h == height,
                n == source@.len(),
                h * row_len <= n,
                flipped@.len() == n,
                y < h,
                src_start == y * row_len,
                dst_start == (h - 1 - y) * row_len,
                dst_start + row_len == (h - y) * row_len,
                (h - y) * row_len <= h * row_len,
                src_start + row_len <= h * row_len,
                k <= row_len,
                forall|i: int|
                    0 <= i < n && (i < dst_start || (dst_start + k <= i < (h - y) * row_len) || i
                        >= h * row_len) ==> flipped@[i] == 0,
                forall|i: int|
                    (h - y) * row_len <= i < h * row_len ==> flipped@[i] == source@[(h - 1 - i
                        / row_len as int) * row_len + i % row_len as int],
                forall|i: int|
                    dst_start <= i < dst_start + k ==> flipped@[i] == source@[src_start + (i
                        - dst_start)],
            decreases row_len - k,
        {
            flipped.set(dst_start + k, source[src_start + k]);
            k = k + 1;
        }
        assert forall|i: int| dst_start <= i < dst_start + row_len implies flipped@[i]
            == source@[(h - 1 - i / row_len as int) * row_len + i % row_len as int] by {
            lemma_cell_join((h - 1 - y) as int, i - dst_start, row_len as int);
        }
        y = y + 1;
    }
    assert((h - y) * row_len == 0) by (nonlinear_arith)
        requires
            y == h,
    ;
    assert(flipped@ =~= flipped_rgba(width as nat, height as nat, source@));
    flipped
}

/// Flipping the rows of a tightly packed image twice gives back the image.
pub proof fn lemma_flip_rows_twice(width: nat, height: nat, source: Seq<u8>)
    requires
        source.len() == height * (4 * width),
    ensures
        flipped_rgba(width, height, flipped_rgba(width, height, source)) == source,
{
    let row: int = (4 * width) as int;
    let once = flipped_rgba(width, height, source);
    let twice = flipped_rgba(width, height, once);
    assert forall|i: int| 0 <= i < source.len() implies twice[i] == source[i] by {
        lemma_cell_split(i, row);
        lemma_row_in_grid(i, row, height as int);
        let j = (height - 1 - i / row) * row + i % row;
        lemma_cell_join(height - 1 - i / row, i % row, row);
        lemma_cell_in_grid(height - 1 - i / row, i % row, row, height as int);
        assert(once[j] == source[(height - 1 - j / row) * row + j % row]);
    }
    assert(twice =~= source);
}

/// Byte of the source image that lands at byte `i` of the image turned a quarter turn
/// counter-clockwise, for a source `width` pixels wide and `height` pixels tall.
pub open spec fn rotated_source_index(width: int, height: int, i: int) -> int {
    let pixel = i / 4;
    let dest_y = pixel / height;
    let dest_x = pixel % height;
    cell_index(dest_x, width - 1 - dest_y, width) * 4 + i % 4
}

/// `source`, an image `width` pixels wide and `height` pixels tall, turned a quarter turn
/// counter-clockwise (the result is `height` pixels wide); bytes past the image read as zero.
pub open spec fn rotated_rgba(width: nat, height: nat, source: Seq<u8>) -> Seq<u8> {
    Seq::new(
        source.len(),
        |i: int|
            if i < width * height * 4 {
                source[rotated_source_index(width as int, height as int, i)]
            } else {
                0u8
            },
    )
}

/// Whether the destination pixel holding byte `i` has been filled once the source pixels
/// before row `y`, column `x` have been moved.
spec fn rotation_done(width: int, height: int, y: int, x: int, i: int) -> bool {
    let pixel = i / 4;
    pixel % height < y || (pixel % height == y && pixel / height >= width - x)
}

/// Turns an RGBA8 image `width` pixels wide and `height` pixels tall a quarter turn
/// counter-clockwise. The result has the length of `source`; bytes past the image are zero.
pub fn rotate_rgba_90_ccw(width: u32, height: u32, source: &[u8]) -> (rotated: Vec<u8>)
    requires
        width * height * 4 <= u32::MAX,
        width * height * 4 <= source@.len(),
    ensures
        rotated@ == rotated_rgba(width as nat, height as nat, source@),
{
    let n: usize = source.len();
    let mut rotated = zeroed_bytes(n);
    let ghost w = width as int;
    let ghost h = height as int;
    proof {
        assert forall|i: int| 0 <= i < w * h * 4 implies !rotation_done(w, h, 0, 0, i) by {
            assert(h > 0) by (nonlinear_arith)
                requires
                    0 <= i < w * h * 4,
                    w >= 0,
                    h >= 0,
            ;
            lemma_cell_split(i, 4);
            lemma_row_in_grid(i, 4, w * h);
            lemma_cell_split(i / 4, h);
            lemma_row_in_grid(i / 4, h, w);
        }
    }
    let mut y: u32 = 0;
    while y < height
        invariant
            n == source@.len(),
            w * h * 4 <= n,
            w * h * 4 <= u32::MAX,
            w == width,
            h == height,
            rotated@.len() == n,
            y <= height,
            forall|i: int|
                0 <= i < n ==> rotated@[i] == (if i < w * h * 4 && rotation_done(w, h, y as int, 0, i) {
                    source@[rotated_source_index(w, h, i)]
                } else {
                    0u8
                }),
        decreases height - y,
    {
        let mut x: u32 = 0;
        while x < width
            invariant
                n == source@.len(),
                w * h * 4 <= n,
                w * h * 4 <= u32::MAX,
                w == width,
                h == height,
                rotated@.len() == n,
                y < height,
                x <= width,
                forall|i: int|
                    0 <= i < n ==> rotated@[i] == (if i < w * h * 4 && rotation_done(w, h, y as int, x as int, i) {
                        source@[rotated_source_index(w, h, i)]
                    } else {
                        0u8
                    }),
            decreases width - x,
        {
            proof {
                lemma_cell_in_grid(y as int, x as int, w, h);
                lemma_cell_in_grid((w - 1 - x) as int, y as int, h, w);
                assert(cell_index(y as int, x as int, w) * 4 + 4 <= w * h * 4 && cell_index(w - 1 - x, y as int, h) * 4 + 4 <= w * h * 4) by (nonlinear_arith)
                    requires
                        cell_index(y as int, x as int, w) < h * w,
                        cell_index(w - 1 - x, y as int, h) < w * h;
            }
            let src_index: usize = ((y * width + x) * 4) as usize;
            let dest_x: u32 = y;
            let dest_y: u32 = width - 1 - x;
            let dest_index: usize = ((dest_y * height + dest_x) * 4) as usize;
            let ghost before = rotated@;
            rotated.set(dest_index, source[src_index]);
            rotated.set(dest_index + 1, source[src_index + 1]);
            rotated.set(dest_index + 2, source[src_index + 2]);
            rotated.set(dest_index + 3, source[src_index + 3]);
            proof {
                let dest = cell_index(w - 1 - x, y as int, h);
                lemma_cell_join(w - 1 - x, y as int, h);
                assert forall|i: int| 0 <= i < n implies rotated@[i] == (if i < w * h * 4 && rotation_done(w, h, y as int, x + 1, i) {
                    source@[rotated_source_index(w, h, i)]
                } else {
                    0u8
                }) by {
                    lemma_cell_split(i, 4);
                    let pixel = i / 4;
                    lemma_cell_split(pixel, h);
                    if pixel == dest {
                        assert(dest_index + 0 <= i < dest_index + 4);
                        assert(i < w * h * 4);
                        assert(rotation_done(w, h, y as int, x + 1, i));
                        assert(rotated_source_index(w, h, i) == src_index + i % 4);
                    } else {
                        assert(i < dest_index || i >= dest_index + 4);
                        assert(rotation_done(w, h, y as int, x + 1, i) == rotation_done(w, h, y as int, x as int, i));
                    }
                }
            }
            x = x + 1;
        }
        proof {
            assert forall|i: int| 0 <= i < w * h * 4 implies rotation_done(w, h, y as int, w, i)
                == rotation_done(w, h, y + 1, 0, i) by {
                lemma_cell_split(i, 4);
                lemma_row_in_grid(i, 4, w * h);
                lemma_cell_split(i / 4, h);
                lemma_row_in_grid(i / 4, h, w);
            }
        }
        y = y + 1;
    }
    proof {
        assert forall|i: int| 0 <= i < w * h * 4 implies rotation_done(w, h, h, 0, i) by {
            lemma_cell_split(i, 4);
            lemma_cell_split(i / 4, h);
        }
    }
    assert(rotated@ =~= rotated_rgba(width as nat, height as nat, source@));
    rotated
}

/// Byte of the source image that lands at byte `i` of the image turned half a turn, for an
/// image `width` pixels wide and `height` pixels tall.
pub open spec fn half_turn_source_index(width: int, height: int, i: int) -> int {
    let pixel = i / 4;
    cell_index(height - 1 - pixel / width, width - 1 - pixel % width, width) * 4 + i % 4
}

/// Byte `i` of a `width` by `height` image splits into a pixel row, column and channel that
/// lie inside the image.
proof fn lemma_byte_split(i: int, width: int, height: int)
    requires
        0 <= i < width * height * 4,
        0 <= width,
        0 <= height,
    ensures
        0 < width,
        0 < height,
        0 <= i / 4 < width * height,
        0 <= (i / 4) / width < height,
        0 <= (i / 4) % width < width,
        i == cell_index((i / 4) / width, (i / 4) % width, width) * 4 + i % 4,
        0 <= i % 4 < 4,
{
    assert(0 < width && 0 < height) by (nonlinear_arith)
        requires
            0 <= i < width * height * 4,
            0 <= width,
            0 <= height,
    ;
    assert(width * height * 4 == (height * width) * 4) by (nonlinear_arith);
    lemma_cell_split(i, 4);
    lemma_row_in_grid(i, 4, height * width);
    lemma_cell_split(i / 4, width);
    lemma_row_in_grid(i / 4, width, height);
}

/// Byte `c` of pixel `(row, col)` of a `width` by `height` image, read back.
proof fn lemma_byte_join(row: int, col: int, c: int, width: int, height: int)
    requires
        0 <= row < height,
        0 <= col < width,
        0 <= c < 4,
    ensures
        0 <= cell_index(row, col, width) * 4 + c < width * height * 4,
        (cell_index(row, col, width) * 4 + c) / 4 == cell_index(row, col, width),
        (cell_index(row, col, width) * 4 + c) % 4 == c,
        cell_index(row, col, width) / width == row,
        cell_index(row, col, width) % width == col,
{
    lemma_cell_in_grid(row, col, width, height);
    lemma_cell_join(cell_index(row, col, width), c, 4);
    lemma_cell_join(row, col, width);
    assert(cell_index(row, col, width) * 4 + c < width * height * 4) by (nonlinear_arith)
        requires
            0 <= cell_index(row, col, width) < height * width,
            0 <= c < 4,
    ;
}

/// Two quarter turns counter-clockwise make a half turn.
pub proof fn lemma_two_quarter_turns(width: nat, height: nat, source: Seq<u8>)
    requires
        source.len() == width * height * 4,
    ensures
        rotated_rgba(height, width, rotated_rgba(width, height, source)) == Seq::new(
            source.len(),
            |i: int| source[half_turn_source_index(width as int, height as int, i)],
        ),
{
    let w = width as int;
    let h = height as int;
    let once = rotated_rgba(width, height, source);
    let twice = rotated_rgba(height, width, once);
    let half = Seq::new(source.len(), |i: int| source[half_turn_source_index(w, h, i)]);
    assert forall|i: int| 0 <= i < source.len() implies twice[i] == half[i] by {
        lemma_byte_split(i, w, h);
        let row = (i / 4) / w;
        let col = (i / 4) % w;
        let c = i % 4;
        // byte `i` of the second turn comes from this byte of the first turn
        let j = rotated_source_index(h, w, i);
        assert(j == cell_index(col, h - 1 - row, h) * 4 + c);
        lemma_byte_join(col, h - 1 - row, c, h, w);
        assert(once[j] == source[rotated_source_index(w, h, j)]);
        assert(rotated_source_index(w, h, j) == cell_index(h - 1 - row, w - 1 - col, w) * 4 + c);
    }
    assert(twice =~= half);
}

/// Turning an image half a turn twice gives back the image.
proof fn lemma_two_half_turns(width: nat, height: nat, source: Seq<u8>)
    requires
        source.len() == width * height * 4,
    ensures
        Seq::new(
            source.len(),
            |i: int| Seq::new(source.len(), |j: int| source[half_turn_source_index(width as int, height as int, j)])[half_turn_source_index(width as int, height as int, i)],
        ) == source,
{
    let w = width as int;
    let h = height as int;
    let half = Seq::new(source.len(), |j: int| source[half_turn_source_index(w, h, j)]);
    let both = Seq::new(source.len(), |i: int| half[half_turn_source_index(w, h, i)]);
    assert forall|i: int| 0 <= i < source.len() implies both[i] == source[i] by {
        lemma_byte_split(i, w, h);
        let row = (i / 4) / w;
        let col = (i / 4) % w;
        let c = i % 4;
        let j = half_turn_source_index(w, h, i);
        lemma_byte_join(h - 1 - row, w - 1 - col, c, w, h);
        assert(half_turn_source_index(w, h, j) == cell_index(row, col, w) * 4 + c);
    }
    assert(both =~= source);
}

/// Four quarter turns counter-clockwise give back the image.
pub proof fn lemma_four_quarter_turns(width: nat, height: nat, source: Seq<u8>)
    requires
        source.len() == width * height * 4,
    ensures
        rotated_rgba(
            height,
            width,
            rotated_rgba(width, height, rotated_rgba(height, width, rotated_rgba(width, height, source))),
        ) == source,
{
    let w = width as int;
    let h = height as int;
    lemma_two_quarter_turns(width, height, source);
    let half = rotated_rgba(height, width, rotated_rgba(width, height, source));
    assert(half.len() == width * height * 4);
    lemma_two_quarter_turns(width, height, half);
    lemma_two_half_turns(width, height, source);
}

/// Whether atlas pixel `(x, y)` lies in the target rectangle at `(target_x, target_y)` of size
/// `target_width` by `target_height`.
pub open spec fn in_target(
    x: int,
    y: int,
    target_x: int,
    target_y: int,
    target_width: int,
    target_height: int,
) -> bool {
    target_x <= x < target_x + target_width && target_y <= y < target_y + target_height
}

/// Index of the screen pixel shown at offset `(dx, dy)` of a target `target_width` by
/// `target_height` pixels, when a screen `screen_width` by `screen_height` pixels is scaled
/// into it by nearest-neighbour sampling.
pub open spec fn scaled_screen_pixel(
    dx: int,
    dy: int,
    target_width: int,
    target_height: int,
    screen_width: int,
    screen_height: int,
) -> int {
    cell_index(dy * screen_height / target_height, dx * screen_width / target_width, screen_width)
}

/// The atlas `template` (`atlas_width` by `atlas_height` pixels) with the screen image scaled
/// into the target rectangle; target pixels that fall outside the atlas are dropped.
pub open spec fn composited_rgba(
    template: Seq<u8>,
    atlas_width: int,
    atlas_height: int,
    target_x: int,
    target_y: int,
    target_width: int,
    target_height: int,
    screen_width: int,
    screen_height: int,
    screen: Seq<u8>,
) -> Seq<u8> {
    Seq::new(
        template.len(),
        |i: int|
            {
                let x = (i / 4) % atlas_width;
                let y = (i / 4) / atlas_width;
                if i < atlas_width * atlas_height * 4 && in_target(
                    x,
                    y,
                    target_x,
                    target_y,
                    target_width,
                    target_height,
                ) {
                    screen[scaled_screen_pixel(
                        x - target_x,
                        y - target_y,
                        target_width,
                        target_height,
                        screen_width,
                        screen_height,
                    ) * 4 + i % 4]
                } else {
                    template[i]
                }
            },
    )
}

/// Whether byte `i` of the atlas has been written once target rows before `dy` and target
/// columns of row `dy` before `dx` have been visited.
spec fn composite_done(
    atlas_width: int,
    target_x: int,
    target_y: int,
    dy: int,
    dx: int,
    i: int,
) -> bool {
    let x = (i / 4) % atlas_width;
    let y = (i / 4) / atlas_width;
    y - target_y < dy || (y - target_y == dy && x - target_x < dx)
}

/// Byte of the composited atlas, once the visit described by `composite_done` is over.
spec fn composite_partial(
    template: Seq<u8>,
    atlas_width: int,
    atlas_height: int,
    target_x: int,
    target_y: int,
    target_width: int,
    target_height: int,
    screen_width: int,
    screen_height: int,
    screen: Seq<u8>,
    dy: int,
    dx: int,
    i: int,
) -> u8 {
    let x = (i / 4) % atlas_width;
    let y = (i / 4) / atlas_width;
    if i < atlas_width * atlas_height * 4 && in_target(
        x,
        y,
        target_x,
        target_y,
        target_width,
        target_height,
    ) && composite_done(atlas_width, target_x, target_y, dy, dx, i) {
        screen[scaled_screen_pixel(
            x - target_x,
            y - target_y,
            target_width,
            target_height,
            screen_width,
            screen_height,
        ) * 4 + i % 4]
    } else {
        template[i]
    }
}

/// Scales `v` in `[0, from)` to `[0, to)`: `v * to / from < to`.
proof fn lemma_scaled_below(v: int, from: int, to: int)
    requires
        0 <= v < from,
        0 < to,
    ensures
        0 <= v * to / from < to,
{
    assert(0 <= v * to < to * from) by (nonlinear_arith)
        requires
            0 <= v < from,
            0 < to,
    ;
    lemma_row_in_grid(v * to, from, to);
    assert(0 <= v * to / from) by (nonlinear_arith)
        requires
            0 <= v * to,
            0 < from,
    ;
}

/// Byte offset of the last atlas pixel that the target rectangle covers (the one in the last
/// row and the last column of the target that lie in the atlas), or `None` when the target
/// covers no pixel of the atlas.
pub open spec fn last_target_offset(
    atlas_width: int,
    atlas_height: int,
    target_x: int,
    target_y: int,
    target_width: int,
    target_height: int,
) -> Option<int> {
    let end_x = clipped_end(target_x, target_width, atlas_width);
    let end_y = clipped_end(target_y, target_height, atlas_height);
    if target_x < end_x && target_y < end_y {
        Some(cell_index(end_y - 1, end_x - 1, atlas_width) * 4)
    } else {
        None
    }
}

/// End of the span `[start, start + size)` cut off at `limit`.
pub open spec fn clipped_end(start: int, size: int, limit: int) -> int {
    if start + size <= limit {
        start + size
    } else {
        limit
    }
}

/// Whether a screen image of `len` bytes holds the four bytes of every screen pixel sampled
/// for a target pixel that lies in the atlas, and the byte offset of the pixel sampled for
/// every target pixel fits in a `u32`.
pub open spec fn samples_fit(
    atlas_width: int,
    atlas_height: int,
    target_x: int,
    target_y: int,
    target_width: int,
    target_height: int,
    screen_width: int,
    screen_height: int,
    len: int,
) -> bool {
    &&& target_width > 0 && target_height > 0 ==> scaled_screen_pixel(
        target_width - 1,
        target_height - 1,
        target_width,
        target_height,
        screen_width,
        screen_height,
    ) * 4 <= u32::MAX
    &&& last_target_offset(atlas_width, atlas_height, target_x, target_y, target_width, target_height) is Some
        ==> scaled_screen_pixel(
        clipped_end(target_x, target_width, atlas_width) - 1 - target_x,
        clipped_end(target_y, target_height, atlas_height) - 1 - target_y,
        target_width,
        target_height,
        screen_width,
        screen_height,
    ) * 4 + 4 <= len
}

/// The screen pixel sampled for a target offset grows with the offset.
proof fn lemma_sampled_ordered(
    dx: int,
    dy: int,
    mx: int,
    my: int,
    target_width: int,
    target_height: int,
    screen_width: int,
    screen_height: int,
)
    requires
        0 <= dx <= mx < target_width,
        0 <= dy <= my < target_height,
        0 <= screen_width,
        0 <= screen_height,
    ensures
        0 <= dy * screen_height / target_height <= my * screen_height / target_height,
        0 <= dx * screen_width / target_width <= mx * screen_width / target_width,
        0 <= scaled_screen_pixel(dx, dy, target_width, target_height, screen_width, screen_height)
            <= scaled_screen_pixel(mx, my, target_width, target_height, screen_width, screen_height),
{
    assert(0 <= dy * screen_height <= my * screen_height) by (nonlinear_arith)
        requires
            0 <= dy <= my,
            0 <= screen_height,
    ;
    assert(0 <= dx * screen_width <= mx * screen_width) by (nonlinear_arith)
        requires
            0 <= dx <= mx,
            0 <= screen_width,
    ;
    vstd::arithmetic::div_mod::lemma_div_is_ordered(0, dy * screen_height, target_height);
    vstd::arithmetic::div_mod::lemma_div_is_ordered(dy * screen_height, my * screen_height, target_height);
    vstd::arithmetic::div_mod::lemma_div_is_ordered(0, dx * screen_width, target_width);
    vstd::arithmetic::div_mod::lemma_div_is_ordered(dx * screen_width, mx * screen_width, target_width);
    let sy = dy * screen_height / target_height;
    let my_ = my * screen_height / target_height;
    assert(0 <= sy * screen_width <= my_ * screen_width) by (nonlinear_arith)
        requires
            0 <= sy <= my_,
            0 <= screen_width,
    ;
}

/// Whether a template of `len` bytes holds every atlas pixel that the target rectangle covers,
/// and their byte offsets fit in a `u32`.
pub open spec fn target_fits(
    atlas_width: int,
    atlas_height: int,
    target_x: int,
    target_y: int,
    target_width: int,
    target_height: int,
    len: int,
) -> bool {
    last_target_offset(atlas_width, atlas_height, target_x, target_y, target_width, target_height) matches Some(
        offset,
    ) ==> offset <= u32::MAX && offset + 4 <= len
}

/// Copies the screen image, scaled by nearest-neighbour sampling, into the target rectangle of
/// a copy of the atlas template; target pixels that fall outside the atlas are skipped.
pub fn composite_screen_into_atlas(
    atlas_template: &[u8],
    atlas_width: u32,
    atlas_height: u32,
    target_x: u32,
    target_y: u32,
    target_width: u32,
    target_height: u32,
    screen_width: u32,
    screen_height: u32,
    screen_data: &[u8],
) -> (atlas: Vec<u8>)
    requires
        target_fits(
            atlas_width as int,
            atlas_height as int,
            target_x as int,
            target_y as int,
            target_width as int,
            target_height as int,
            atlas_template@.len() as int,
        ),
        samples_fit(
            atlas_width as int,
            atlas_height as int,
            target_x as int,
            target_y as int,
            target_width as int,
            target_height as int,
            screen_width as int,
            screen_height as int,
            screen_data@.len() as int,
        ),
        target_width == 0 || (target_width - 1) * screen_width <= u32::MAX,
        target_height == 0 || (target_height - 1) * screen_height <= u32::MAX,
        target_width == 0 || target_x + (target_width - 1) <= u32::MAX,
        target_height == 0 || target_y + (target_height - 1) <= u32::MAX,
    ensures
        atlas@ == composited_rgba(
            atlas_template@,
            atlas_width as int,
            atlas_height as int,
            target_x as int,
            target_y as int,
            target_width as int,
            target_height as int,
            screen_width as int,
            screen_height as int,
            screen_data@,
        ),
{
    let mut atlas = vstd::slice::slice_to_vec(atlas_template);
    let ghost template = atlas_template@;
    let ghost screen = screen_data@;
    let ghost aw = atlas_width as int;
    let ghost ah = atlas_height as int;
    let ghost tx = target_x as int;
    let ghost ty = target_y as int;
    let ghost tw = target_width as int;
    let ghost th = target_height as int;
    let ghost sw = screen_width as int;
    let ghost sh = screen_height as int;
    let ghost n = template.len() as int;
    proof {
        assert forall|i: int| 0 <= i < n implies atlas@[i] == composite_partial(
            template, aw, ah, tx, ty, tw, th, sw, sh, screen, 0, 0, i) by {
            if i < aw * ah * 4 {
                lemma_byte_split(i, aw, ah);
            }
        }
    }
    let mut dest_y: u32 = 0;
    while dest_y < target_height
        invariant
            atlas@.len() == n,
            n == template.len(),
            template == atlas_template@,
            screen == screen_data@,
            aw == atlas_width && ah == atlas_height && tx == target_x && ty == target_y,
            tw == target_width && th == target_height && sw == screen_width && sh == screen_height,
            target_fits(aw, ah, tx, ty, tw, th, n),
            samples_fit(aw, ah, tx, ty, tw, th, sw, sh, screen.len() as int),
            tw == 0 || (tw - 1) * sw <= u32::MAX,
            th == 0 || (th - 1) * sh <= u32::MAX,
            tw == 0 || tx + (tw - 1) <= u32::MAX,
            th == 0 || ty + (th - 1) <= u32::MAX,
            dest_y <= target_height,
            forall|i: int|
                0 <= i < n ==> atlas@[i] == composite_partial(
                    template, aw, ah, tx, ty, tw, th, sw, sh, screen, dest_y as int, 0, i),
        decreases target_height - dest_y,
    {
        assert(dest_y * sh <= (th - 1) * sh) by (nonlinear_arith)
            requires
                dest_y < th,
                0 <= sh,
        ;
        let source_y: u32 = dest_y * screen_height / target_height;
        let mut dest_x: u32 = 0;
        while dest_x < target_width
            invariant
                atlas@.len() == n,
                n == template.len(),
                template == atlas_template@,
                screen == screen_data@,
                aw == atlas_width && ah == atlas_height && tx == target_x && ty == target_y,
                tw == target_width && th == target_height && sw == screen_width && sh == screen_height,
                target_fits(aw, ah, tx, ty, tw, th, n),
                samples_fit(aw, ah, tx, ty, tw, th, sw, sh, screen.len() as int),
                tw == 0 || (tw - 1) * sw <= u32::MAX,
                th == 0 || (th - 1) * sh <= u32::MAX,
                tw == 0 || tx + (tw - 1) <= u32::MAX,
                th == 0 || ty + (th - 1) <= u32::MAX,
                dest_y < target_height,
                source_y == dest_y * sh / th,
                dest_x <= target_width,
                forall|i: int|
                    0 <= i < n ==> atlas@[i] == composite_partial(
                        template, aw, ah, tx, ty, tw, th, sw, sh, screen, dest_y as int, dest_x as int, i),
            decreases target_width - dest_x,
        {
            assert(dest_x * sw <= (tw - 1) * sw) by (nonlinear_arith)
                requires
                    dest_x < tw,
                    0 <= sw,
            ;
            let source_x: u32 = dest_x * screen_width / target_width;
            proof {
                lemma_sampled_ordered(dest_x as int, dest_y as int, tw - 1, th - 1, tw, th, sw, sh);
            }
            let source_index: usize = ((source_y * screen_width + source_x) * 4) as usize;
            let atlas_x: u32 = target_x + dest_x;
            let atlas_y: u32 = target_y + dest_y;
            if atlas_x >= atlas_width || atlas_y >= atlas_height {
                proof {
                    assert forall|i: int| 0 <= i < n implies atlas@[i] == composite_partial(
                        template, aw, ah, tx, ty, tw, th, sw, sh, screen, dest_y as int, dest_x + 1, i) by {
                        if i < aw * ah * 4 {
                            lemma_byte_split(i, aw, ah);
                        }
                    }
                }
                dest_x = dest_x + 1;
                continue;
            }
            proof {
                lemma_byte_join(atlas_y as int, atlas_x as int, 3, aw, ah);
                let offset = last_target_offset(aw, ah, tx, ty, tw, th)->0;
                let end_x = if tx + tw <= aw { tx + tw } else { aw };
                let end_y = if ty + th <= ah { ty + th } else { ah };
                assert(atlas_y * aw <= (end_y - 1) * aw) by (nonlinear_arith)
                    requires
                        atlas_y <= end_y - 1,
                        0 <= aw,
                ;
                assert(offset == ((end_y - 1) * aw + end_x - 1) * 4);
                assert(cell_index(atlas_y as int, atlas_x as int, aw) * 4 <= offset);
                lemma_sampled_ordered(dest_x as int, dest_y as int, end_x - 1 - tx, end_y - 1 - ty, tw, th, sw, sh);
            }
            let atlas_index: usize = ((atlas_y * atlas_width + atlas_x) * 4) as usize;
            let ghost before = atlas@;
            atlas.set(atlas_index, screen_data[source_index]);
            atlas.set(atlas_index + 1, screen_data[source_index + 1]);
            atlas.set(atlas_index + 2, screen_data[source_index + 2]);
            atlas.set(atlas_index + 3, screen_data[source_index + 3]);
            proof {
                let d = cell_index(atlas_y as int, atlas_x as int, aw);
                lemma_byte_join(atlas_y as int, atlas_x as int, 0, aw, ah);
                assert forall|i: int| 0 <= i < n implies atlas@[i] == composite_partial(
                    template, aw, ah, tx, ty, tw, th, sw, sh, screen, dest_y as int, dest_x + 1, i) by {
                    if i < aw * ah * 4 {
                        lemma_byte_split(i, aw, ah);
                        if i / 4 == d {
                            assert(atlas_index <= i < atlas_index + 4);
                            assert(scaled_screen_pixel(dest_x as int, dest_y as int, tw, th, sw, sh) * 4 + i % 4
                                == source_index + (i - atlas_index));
                        } else {
                            assert(i < atlas_index || i >= atlas_index + 4);
                        }
                    } else {
                        assert(i >= atlas_index + 4);
                    }
                }
            }
            dest_x = dest_x + 1;
        }
        proof {
            assert forall|i: int| 0 <= i < n implies composite_partial(
                template, aw, ah, tx, ty, tw, th, sw, sh, screen, dest_y as int, tw, i)
                == composite_partial(template, aw, ah, tx, ty, tw, th, sw, sh, screen, dest_y + 1, 0, i) by {
                if i < aw * ah * 4 {
                    lemma_byte_split(i, aw, ah);
                }
            }
        }
        dest_y = dest_y + 1;
    }
    proof {
        assert forall|i: int| 0 <= i < n implies composite_partial(
            template, aw, ah, tx, ty, tw, th, sw, sh, screen, th, 0, i)
            == composited_rgba(template, aw, ah, tx, ty, tw, th, sw, sh, screen)[i] by {
            if i < aw * ah * 4 {
                lemma_byte_split(i, aw, ah);
            }
        }
    }
    assert(atlas@ =~= composited_rgba(template, aw, ah, tx, ty, tw, th, sw, sh, screen));
    atlas
}

/// Composition leaves every atlas byte outside the target rectangle as the template has it.
pub proof fn lemma_composite_keeps_outside(
    template: Seq<u8>,
    atlas_width: int,
    atlas_height: int,
    target_x: int,
    target_y: int,
    target_width: int,
    target_height: int,
    screen_width: int,
    screen_height: int,
    screen: Seq<u8>,
    x: int,
    y: int,
    c: int,
)
    requires
        0 <= x < atlas_width,
        0 <= y < atlas_height,
        0 <= c < 4,
        atlas_width * atlas_height * 4 <= template.len(),
        !in_target(x, y, target_x, target_y, target_width, target_height),
    ensures
        ({
            let i = cell_index(y, x, atlas_width) * 4 + c;
            composited_rgba(
                template,
                atlas_width,
                atlas_height,
                target_x,
                target_y,
                target_width,
                target_height,
                screen_width,
                screen_height,
                screen,
            )[i] == template[i]
        }),
{
    lemma_byte_join(y, x, c, atlas_width, atlas_height);
}

/// When the screen has the size of the target, composition copies it pixel for pixel: the
/// byte at offset `(dx, dy)` of a target pixel inside the atlas is the screen's byte at
/// `(dx, dy)`.
pub proof fn lemma_composite_unscaled(
    template: Seq<u8>,
    atlas_width: int,
    atlas_height: int,
    target_x: int,
    target_y: int,
    target_width: int,
    target_height: int,
    screen: Seq<u8>,
    dx: int,
    dy: int,
    c: int,
)
    requires
        0 <= dx < target_width,
        0 <= dy < target_height,
        0 <= target_x,
        0 <= target_y,
        target_x + dx < atlas_width,
        target_y + dy < atlas_height,
        0 <= c < 4,
        atlas_width * atlas_height * 4 <= template.len(),
    ensures
        ({
            let i = cell_index(target_y + dy, target_x + dx, atlas_width) * 4 + c;
            composited_rgba(
                template,
                atlas_width,
                atlas_height,
                target_x,
                target_y,
                target_width,
                target_height,
                target_width,
                target_height,
                screen,
            )[i] == screen[cell_index(dy, dx, target_width) * 4 + c]
        }),
{
    lemma_byte_join(target_y + dy, target_x + dx, c, atlas_width, atlas_height);
    lemma_cell_join(dy, 0, target_height);
    lemma_cell_join(dx, 0, target_width);
    assert(dy * target_height == cell_index(dy, 0, target_height));
    assert(dx * target_width == cell_index(dx, 0, target_width));
}

/// Left edge of the terminal screen in the texture atlas, in pixels.
pub const SCREEN_ATLAS_X: u32 = 10;

/// Top edge of the terminal screen in the texture atlas, in pixels.
pub const SCREEN_ATLAS_Y: u32 = 463;

/// Width of the terminal screen in the texture atlas, in pixels.
pub const SCREEN_ATLAS_WIDTH: u32 = 157;

/// Height of the terminal screen in the texture atlas, in pixels.
pub const SCREEN_ATLAS_HEIGHT: u32 = 233;

/// The atlas with the rendered screen on it: the screen image (`screen_width` by
/// `screen_height` pixels) is flipped top to bottom, turned a quarter turn counter-clockwise,
/// and scaled into the screen's rectangle of the atlas.
pub open spec fn screen_on_atlas(
    template: Seq<u8>,
    atlas_width: int,
    atlas_height: int,
    screen_width: nat,
    screen_height: nat,
    screen: Seq<u8>,
) -> Seq<u8> {
    composited_rgba(
        template,
        atlas_width,
        atlas_height,
        SCREEN_ATLAS_X as int,
        SCREEN_ATLAS_Y as int,
        SCREEN_ATLAS_WIDTH as int,
        SCREEN_ATLAS_HEIGHT as int,
        screen_height as int,
        screen_width as int,
        rotated_rgba(screen_width, screen_height, flipped_rgba(screen_width, screen_height, screen)),
    )
}

/// Puts the rendered screen image on a copy of the atlas template (see `screen_on_atlas`).
pub fn screen_to_atlas_pixels(
    atlas_template: &[u8],
    atlas_width: u32,
    atlas_height: u32,
    screen_width: u32,
    screen_height: u32,
    screen_rgba: &[u8],
) -> (atlas: Vec<u8>)
    requires
        target_fits(
            atlas_width as int,
            atlas_height as int,
            SCREEN_ATLAS_X as int,
            SCREEN_ATLAS_Y as int,
            SCREEN_ATLAS_WIDTH as int,
            SCREEN_ATLAS_HEIGHT as int,
            atlas_template@.len() as int,
        ),
        screen_width * screen_height * 4 <= u32::MAX,
        screen_width * screen_height * 4 <= screen_rgba@.len(),
        screen_width > 0,
        screen_height > 0,
        (SCREEN_ATLAS_WIDTH - 1) * screen_height <= u32::MAX,
        (SCREEN_ATLAS_HEIGHT - 1) * screen_width <= u32::MAX,
    ensures
        atlas@ == screen_on_atlas(
            atlas_template@,
            atlas_width as int,
            atlas_height as int,
            screen_width as nat,
            screen_height as nat,
            screen_rgba@,
        ),
{
    assert(4 * screen_width <= u32::MAX && screen_height * (4 * screen_width) <= screen_rgba@.len())
        by (nonlinear_arith)
        requires
            screen_width * screen_height * 4 <= u32::MAX,
            screen_width * screen_height * 4 <= screen_rgba@.len(),
            screen_height > 0,
    ;
    let flipped = flip_rgba_rows(screen_width, screen_height, screen_rgba);
    let rotated = rotate_rgba_90_ccw(screen_width, screen_height, flipped.as_slice());
    assert(screen_height * screen_width * 4 == screen_width * screen_height * 4) by (nonlinear_arith);
    proof {
        let sw = screen_height as int;
        let sh = screen_width as int;
        let tw = SCREEN_ATLAS_WIDTH as int;
        let th = SCREEN_ATLAS_HEIGHT as int;
        assert forall|dx: int, dy: int| 0 <= dx < tw && 0 <= dy < th implies 0 <= #[trigger] scaled_screen_pixel(
            dx,
            dy,
            tw,
            th,
            sw,
            sh,
        ) * 4 + 4 <= sw * sh * 4 by {
            lemma_scaled_below(dy, th, sh);
            lemma_scaled_below(dx, tw, sw);
            lemma_byte_join(dy * sh / th, dx * sw / tw, 3, sw, sh);
        }
        let end_x = clipped_end(SCREEN_ATLAS_X as int, tw, atlas_width as int);
        let end_y = clipped_end(SCREEN_ATLAS_Y as int, th, atlas_height as int);
        assert(scaled_screen_pixel(tw - 1, th - 1, tw, th, sw, sh) * 4 + 4 <= sw * sh * 4);
        if end_x > SCREEN_ATLAS_X && end_y > SCREEN_ATLAS_Y {
            assert(scaled_screen_pixel(
                end_x - 1 - SCREEN_ATLAS_X,
                end_y - 1 - SCREEN_ATLAS_Y,
                tw,
                th,
                sw,
                sh,
            ) * 4 + 4 <= sw * sh * 4);
        }
    }
    composite_screen_into_atlas(
        atlas_template,
        atlas_width,
        atlas_height,
        SCREEN_ATLAS_X,
        SCREEN_ATLAS_Y,
        SCREEN_ATLAS_WIDTH,
        SCREEN_ATLAS_HEIGHT,
        screen_height,
        screen_width,
        rotated.as_slice(),
    )
}

/// Where the screen appears on the atlas: the pixel at offset `(dx, dy)` of the screen's
/// rectangle shows screen pixel (column `w - 1 - dy * w / 233`, row `h - 1 - dx * h / 157`)
/// of a `w` by `h` screen, so atlas rows run along the screen's columns from its right edge and
/// atlas columns run along the screen's rows from its bottom edge.
pub proof fn lemma_screen_pixel_on_atlas(
    template: Seq<u8>,
    atlas_width: int,
    atlas_height: int,
    width: nat,
    height: nat,
    screen: Seq<u8>,
    dx: int,
    dy: int,
    c: int,
)
    requires
        screen.len() == width * height * 4,
        0 < width,
        0 < height,
        atlas_width * atlas_height * 4 <= template.len(),
        0 <= dx < SCREEN_ATLAS_WIDTH,
        0 <= dy < SCREEN_ATLAS_HEIGHT,
        SCREEN_ATLAS_X + dx < atlas_width,
        SCREEN_ATLAS_Y + dy < atlas_height,
        0 <= c < 4,
    ensures
        ({
            let i = cell_index(SCREEN_ATLAS_Y + dy, SCREEN_ATLAS_X + dx, atlas_width) * 4 + c;
            let column = width - 1 - dy * width / (SCREEN_ATLAS_HEIGHT as int);
            let row = height - 1 - dx * height / (SCREEN_ATLAS_WIDTH as int);
            screen_on_atlas(template, atlas_width, atlas_height, width, height, screen)[i]
                == screen[cell_index(row, column, width as int) * 4 + c]
        }),
{
    let w = width as int;
    let h = height as int;
    let flipped = flipped_rgba(width, height, screen);
    let rotated = rotated_rgba(width, height, flipped);
    lemma_byte_join(SCREEN_ATLAS_Y + dy, SCREEN_ATLAS_X + dx, c, atlas_width, atlas_height);
    // the rotated image is `h` wide and `w` tall
    let ry = dy * w / (SCREEN_ATLAS_HEIGHT as int);
    let rx = dx * h / (SCREEN_ATLAS_WIDTH as int);
    lemma_scaled_below(dy, SCREEN_ATLAS_HEIGHT as int, w);
    lemma_scaled_below(dx, SCREEN_ATLAS_WIDTH as int, h);
    let j = cell_index(ry, rx, h) * 4 + c;
    lemma_byte_join(ry, rx, c, h, w);
    assert(h * w * 4 == w * h * 4) by (nonlinear_arith);
    assert(rotated[j] == flipped[rotated_source_index(w, h, j)]);
    let k = cell_index(rx, w - 1 - ry, w) * 4 + c;
    assert(rotated_source_index(w, h, j) == k);
    let row = 4 * w;
    assert(k == cell_index(rx, (w - 1 - ry) * 4 + c, row)) by (nonlinear_arith)
        requires
            k == cell_index(rx, w - 1 - ry, w) * 4 + c,
            row == 4 * w,
    ;
    lemma_cell_join(rx, (w - 1 - ry) * 4 + c, row);
    lemma_byte_join(rx, w - 1 - ry, c, w, h);
    assert(k < h * row) by (nonlinear_arith)
        requires
            k < w * h * 4,
            row == 4 * w,
    ;
    assert(flipped[k] == screen[(h - 1 - rx) * row + (w - 1 - ry) * 4 + c]);
    assert((h - 1 - rx) * row + (w - 1 - ry) * 4 + c == cell_index(h - 1 - rx, w - 1 - ry, w) * 4
        + c) by (nonlinear_arith)
        requires
            row == 4 * w,
    ;
}

/// Flipping moves each pixel to the mirrored row: byte `c` of pixel `(x, y)` of the source is
/// byte `c` of pixel `(x, height - 1 - y)` of the flipped image.
pub proof fn lemma_flip_moves_pixel(width: nat, height: nat, source: Seq<u8>, x: int, y: int, c: int)
    requires
        source.len() == height * (4 * width),
        0 <= x < width,
        0 <= y < height,
        0 <= c < 4,
    ensures
        flipped_rgba(width, height, source)[cell_index(height - 1 - y, x, width as int) * 4 + c]
            == source[cell_index(y, x, width as int) * 4 + c],
{
    let row: int = (4 * width) as int;
    let i = cell_index(height - 1 - y, x, width as int) * 4 + c;
    assert(i == cell_index(height - 1 - y, 4 * x + c, row)) by (nonlinear_arith)
        requires
            i == cell_index(height - 1 - y, x, width as int) * 4 + c,
            row == 4 * width,
    ;
    assert(cell_index(y, x, width as int) * 4 + c == cell_index(y, 4 * x + c, row))
        by (nonlinear_arith)
        requires
            row == 4 * width,
    ;
    lemma_cell_join(height - 1 - y, 4 * x + c, row);
    lemma_cell_in_grid(height - 1 - y, 4 * x + c, row, height as int);
}

/// A quarter turn counter-clockwise moves each pixel of a `width` by `height` image to the
/// turned image, `height` pixels wide: byte `c` of pixel `(x, y)` of the source is byte `c`
/// of pixel `(y, width - 1 - x)` of the turned image.
pub proof fn lemma_rotate_moves_pixel(
    width: nat,
    height: nat,
    source: Seq<u8>,
    x: int,
    y: int,
    c: int,
)
    requires
        source.len() == width * height * 4,
        0 <= x < width,
        0 <= y < height,
        0 <= c < 4,
    ensures
        rotated_rgba(width, height, source)[cell_index(width - 1 - x, y, height as int) * 4 + c]
            == source[cell_index(y, x, width as int) * 4 + c],
{
    lemma_byte_join(width - 1 - x, y, c, height as int, width as int);
    assert(height * width * 4 == width * height * 4) by (nonlinear_arith);
}

} // verus!
