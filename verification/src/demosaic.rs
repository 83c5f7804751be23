use crate::cfa::{BLUE, GREEN, RED};
use crate::sensor::{RawSensorImage, SensorView, VALUE_LIMIT};
use vstd::prelude::*;

verus! {

/// 1 for a known value, 0 for the zero that stands for unknown.
pub open spec fn known(v: nat) -> nat {
    if v > 0 {
        1
    } else {
        0
    }
}

/// The mean of those of the four values that are known, rounded down; zero
/// if none is.
pub open spec fn mean_of_known(a: nat, b: nat, c: nat, d: nat) -> nat {
    let count = known(a) + known(b) + known(c) + known(d);
    if count == 0 {
        0
    } else {
        (a + b + c + d) / count
    }
}

/// Whether channel `c`, missing at a pixel whose own channel is `native`, is
/// taken from the four axis-aligned neighbours. Green is, and so is anything
/// missing at a green pixel; red at a blue pixel and blue at a red pixel are
/// taken from the four diagonal neighbours.
pub open spec fn uses_cross(native: int, c: int) -> bool {
    native == GREEN || c == GREEN
}

/// A pixel with all eight neighbours inside a `width` by `height` image has
/// them at valid positions.
pub proof fn lemma_interior_neighbors(width: int, height: int, i: int)
    requires
        width > 0,
        1 <= i % width < width - 1,
        1 <= i / width < height - 1,
    ensures
        width + 1 <= i,
        i + width + 1 < width * height,
{
    vstd::arithmetic::div_mod::lemma_fundamental_div_mod(i, width);
    let x = i % width;
    let y = i / width;
    assert(width * y >= width && width * y + 2 * width <= width * height) by (nonlinear_arith)
        requires
            width > 0,
            1 <= y,
            y + 2 <= height,
    ;
}

impl SensorView {
    /// Pixel `i` is on none of the four edges.
    pub open spec fn interior(self, i: int) -> bool {
        &&& self.width > 0
        &&& 1 <= i % (self.width as int) < self.width - 1
        &&& 1 <= i / (self.width as int) < self.height - 1
    }

    /// The four pixels from which channel `c` is reconstructed at pixel `i`.
    pub open spec fn neighbors(self, c: int, i: int) -> (int, int, int, int) {
        let w = self.width as int;
        if uses_cross(self.native_channel(i), c) {
            (i - 1, i + 1, i - w, i + w)
        } else {
            (i - 1 - w, i - 1 + w, i + 1 - w, i + 1 + w)
        }
    }

    /// The value of channel `c` at pixel `i` after reconstruction, in units
    /// of `1 / unit(c)`. Pixels are reconstructed in row-major order, so a
    /// neighbour that comes earlier contributes its reconstructed value and
    /// one that comes later its native value. Edge pixels keep their native
    /// values.
    pub open spec fn channel_value(self, c: int, i: int) -> nat
        decreases i,
    {
        if i < 0 || !self.interior(i) || self.native_channel(i) == c {
            self.native_value(c, i)
        } else {
            let n = self.neighbors(c, i);
            mean_of_known(
                if 0 <= n.0 < i {
                    self.channel_value(c, n.0)
                } else {
                    self.native_value(c, n.0)
                },
                if 0 <= n.1 < i {
                    self.channel_value(c, n.1)
                } else {
                    self.native_value(c, n.1)
                },
                if 0 <= n.2 < i {
                    self.channel_value(c, n.2)
                } else {
                    self.native_value(c, n.2)
                },
                if 0 <= n.3 < i {
                    self.channel_value(c, n.3)
                } else {
                    self.native_value(c, n.3)
                },
            )
        }
    }

}

impl RawSensorImage {
    /// Reconstructs channel `c` in place from its native plane.
    pub fn fill_plane(&self, c: u8, plane: &mut Vec<u64>)
        requires
            self@.rejection() is None,
            c <= BLUE,
            old(plane)@.len() == self@.pixels(),
            forall|i: int|
                0 <= i < self@.pixels() ==> #[trigger] old(plane)@[i] == self@.native_value(
                    c as int,
                    i,
                ),
            forall|i: int| 0 <= i < self@.pixels() ==> #[trigger] old(plane)@[i] <= VALUE_LIMIT,
        ensures
            final(plane)@.len() == self@.pixels(),
            forall|i: int|
                0 <= i < self@.pixels() ==> #[trigger] final(plane)@[i] == self@.channel_value(
                    c as int,
                    i,
                ),
            forall|i: int| 0 <= i < self@.pixels() ==> #[trigger] final(plane)@[i] <= VALUE_LIMIT,
    {
        let count: usize = plane.len();
        let width: usize = self.width;
        let height: usize = self.height;
        let mut i: usize = 0;
        while i < count
            invariant
                self@.rejection() is None,
                c <= BLUE,
                width == self.width,
                height == self.height,
                count == self@.pixels(),
                plane@.len() == count,
                i <= count,
                forall|j: int|
                    0 <= j < i ==> #[trigger] plane@[j] == self@.channel_value(c as int, j),
                forall|j: int|
                    i <= j < count ==> #[trigger] plane@[j] == self@.native_value(c as int, j),
                forall|j: int| 0 <= j < count ==> #[trigger] plane@[j] <= VALUE_LIMIT,
            decreases count - i,
        {
            assert(width > 0 && height > 0) by (nonlinear_arith)
                requires
                    i < width * height,
                    width >= 0,
                    height >= 0,
            ;
            let x: usize = i % width;
            let y: usize = i / width;
            if x >= 1 && x < width - 1 && y >= 1 && y < height - 1 {
                let native: u8 = self.cfa.color_at(x, y);
                if native != c {
                    proof {
                        lemma_interior_neighbors(width as int, height as int, i as int);
                    }
                    let cross: bool = native == GREEN || c == GREEN;
                    let v0: u64 = if cross { plane[i - 1] } else { plane[i - 1 - width] };
                    let v1: u64 = if cross { plane[i + 1] } else { plane[i - 1 + width] };
                    let v2: u64 = if cross { plane[i - width] } else { plane[i + 1 - width] };
                    let v3: u64 = if cross { plane[i + width] } else { plane[i + 1 + width] };
                    let mean: u64 = mean_known(v0, v1, v2, v3);
                    plane.set(i, mean);
                }
            }
            i += 1;
        }
    }
}

/// The mean of the known values among four.
pub fn mean_known(a: u64, b: u64, c: u64, d: u64) -> (r: u64)
    requires
        a <= VALUE_LIMIT,
        b <= VALUE_LIMIT,
        c <= VALUE_LIMIT,
        d <= VALUE_LIMIT,
    ensures
        r == mean_of_known(a as nat, b as nat, c as nat, d as nat),
        r <= VALUE_LIMIT,
{
    let mut count: u64 = 0;
    if a > 0 {
        count += 1;
    }
    if b > 0 {
        count += 1;
    }
    if c > 0 {
        count += 1;
    }
    if d > 0 {
        count += 1;
    }
    if count == 0 {
        0
    } else {
        let sum: u64 = a + b + c + d;
        assert(sum <= count * VALUE_LIMIT);
        assert(sum / count <= VALUE_LIMIT) by {
            if count == 1 {
                assert(sum / 1 <= VALUE_LIMIT);
            } else if count == 2 {
                assert(sum <= 2 * VALUE_LIMIT);
                assert(sum / 2 <= VALUE_LIMIT);
            } else if count == 3 {
                assert(sum <= 3 * VALUE_LIMIT);
                assert(sum / 3 <= VALUE_LIMIT);
            } else {
                assert(count == 4);
                assert(sum <= 4 * VALUE_LIMIT);
                assert(sum / 4 <= VALUE_LIMIT);
            }
        }
        sum / count
    }
}

} // verus!

verus! {

/// Moving by `dx` columns and `dy` rows from a pixel that has room for it
/// changes its column and row by as much.
pub proof fn lemma_shifted_position(width: int, i: int, dx: int, dy: int)
    requires
        width > 0,
        0 <= i % width + dx < width,
    ensures
        (i + dy * width + dx) % width == i % width + dx,
        (i + dy * width + dx) / width == i / width + dy,
{
    vstd::arithmetic::div_mod::lemma_fundamental_div_mod(i, width);
    let q = i / width + dy;
    let r = i % width + dx;
    assert(i + dy * width + dx == q * width + r) by (nonlinear_arith)
        requires
            i == width * (i / width) + i % width,
            q == i / width + dy,
            r == i % width + dx,
    ;
    vstd::arithmetic::div_mod::lemma_fundamental_div_mod_converse(i + dy * width + dx, width, q, r);
}

impl SensorView {
    /// What pixel `n` shows of channel `c` while pixel `i` is reconstructed.
    pub open spec fn seen(self, c: int, i: int, n: int) -> nat {
        if 0 <= n < i {
            self.channel_value(c, n)
        } else {
            self.native_value(c, n)
        }
    }

    /// One of the four pixels from which channel `c` is reconstructed at
    /// pixel `i` samples that channel itself.
    pub open spec fn has_native_neighbor(self, c: int, i: int) -> bool {
        let n = self.neighbors(c, i);
        self.native_channel(n.0) == c || self.native_channel(n.1) == c || self.native_channel(n.2)
            == c || self.native_channel(n.3) == c
    }

    /// Every interior pixel finds each channel that it lacks natively sampled
    /// among the pixels from which that channel is reconstructed.
    pub open spec fn well_covered(self) -> bool {
        forall|c: int, i: int|
            0 <= c < 3 && 0 <= i < self.pixels() && self.interior(i) && self.native_channel(i) != c
                ==> #[trigger] self.has_native_neighbor(c, i)
    }

    /// Every sample is above its black level and no white-balance factor is
    /// zero, so that every natively sampled value is known.
    pub open spec fn natives_known(self) -> bool {
        forall|i: int|
            0 <= i < self.pixels() ==> #[trigger] self.native_value(self.native_channel(i), i) > 0
    }

    /// The tile is one of the four two-by-two Bayer tiles: green on one
    /// diagonal, red and blue on the other.
    pub open spec fn is_bayer(self) -> bool {
        let t = self.cfa.colors;
        &&& self.cfa.width == 2
        &&& self.cfa.height == 2
        &&& t.len() == 4
        &&& ((t[0] == GREEN && t[3] == GREEN && ((t[1] == RED && t[2] == BLUE) || (t[1] == BLUE
            && t[2] == RED))) || (t[1] == GREEN && t[2] == GREEN && ((t[0] == RED && t[3] == BLUE)
            || (t[0] == BLUE && t[3] == RED))))
    }
}

/// The mean of four values of which one is known, is known.
pub proof fn lemma_mean_known(a: nat, b: nat, c: nat, d: nat)
    requires
        a > 0 || b > 0 || c > 0 || d > 0,
    ensures
        mean_of_known(a, b, c, d) > 0,
{
    let count = known(a) + known(b) + known(c) + known(d);
    let sum = a + b + c + d;
    assert(sum >= count);
    if count == 1 {
        assert(sum / 1 >= 1);
    } else if count == 2 {
        assert(sum / 2 >= 1);
    } else if count == 3 {
        assert(sum / 3 >= 1);
    } else {
        assert(sum / 4 >= 1);
    }
}

/// Reconstruction fills a gap wherever one of the four pixels it draws on
/// shows a known value: an interior pixel that lacks channel `c` gets a known
/// value for it then.
pub proof fn lemma_known_neighbor_fills(s: SensorView, c: int, i: int)
    requires
        s.interior(i),
        i >= 0,
        s.native_channel(i) != c,
        ({
            let n = s.neighbors(c, i);
            s.seen(c, i, n.0) > 0 || s.seen(c, i, n.1) > 0 || s.seen(c, i, n.2) > 0 || s.seen(
                c,
                i,
                n.3,
            ) > 0
        }),
    ensures
        s.channel_value(c, i) > 0,
{
    let n = s.neighbors(c, i);
    lemma_mean_known(s.seen(c, i, n.0), s.seen(c, i, n.1), s.seen(c, i, n.2), s.seen(c, i, n.3));
}

/// Under a well-covering pattern with every native value known, every
/// interior pixel ends with a known value in each of the three channels.
pub proof fn lemma_interior_complete(s: SensorView, c: int, i: int)
    requires
        s.rejection() is None,
        s.well_covered(),
        s.natives_known(),
        0 <= i < s.pixels(),
        s.interior(i),
        0 <= c < 3,
    ensures
        s.channel_value(c, i) > 0,
{
    if s.native_channel(i) == c {
        assert(s.native_value(s.native_channel(i), i) > 0);
    } else {
        assert(s.has_native_neighbor(c, i));
        lemma_interior_neighbors(s.width as int, s.height as int, i);
        assert forall|m: int| 0 <= m < s.pixels() && s.native_channel(m) == c implies s.seen(
            c,
            i,
            m,
        ) > 0 by {
            assert(s.native_value(s.native_channel(m), m) > 0);
        }
        lemma_known_neighbor_fills(s, c, i);
    }
}

/// The channel at a position of a two-by-two tile depends on the parities of
/// column and row alone.
proof fn lemma_bayer_channel(s: SensorView, i: int)
    requires
        s.is_bayer(),
        s.width > 0,
        i >= 0,
    ensures
        s.native_channel(i) == s.cfa.colors[((i / (s.width as int)) % 2) * 2 + (i % (s.width as int))
            % 2],
{
}

/// The Bayer tiles cover well.
pub proof fn lemma_bayer_covers(s: SensorView)
    requires
        s.rejection() is None,
        s.is_bayer(),
    ensures
        s.well_covered(),
{
    let w = s.width as int;
    assert forall|c: int, i: int|
        0 <= c < 3 && 0 <= i < s.pixels() && s.interior(i) && s.native_channel(i)
            != c implies #[trigger] s.has_native_neighbor(c, i) by {
        lemma_interior_neighbors(w, s.height as int, i);
        lemma_shifted_position(w, i, -1, 0);
        lemma_shifted_position(w, i, 1, 0);
        lemma_shifted_position(w, i, 0, -1);
        lemma_shifted_position(w, i, 0, 1);
        lemma_shifted_position(w, i, -1, -1);
        lemma_shifted_position(w, i, -1, 1);
        lemma_shifted_position(w, i, 1, -1);
        lemma_shifted_position(w, i, 1, 1);
        lemma_bayer_channel(s, i);
        lemma_bayer_channel(s, i - 1);
        lemma_bayer_channel(s, i + 1);
        lemma_bayer_channel(s, i - w);
        lemma_bayer_channel(s, i + w);
        lemma_bayer_channel(s, i - 1 - w);
        lemma_bayer_channel(s, i - 1 + w);
        lemma_bayer_channel(s, i + 1 - w);
        lemma_bayer_channel(s, i + 1 + w);
        assert(i - 1 == i + 0 * w + (-1));
        assert(i + 1 == i + 0 * w + 1);
        assert(i - w == i + (-1) * w + 0);
        assert(i + w == i + 1 * w + 0);
        assert(i - 1 - w == i + (-1) * w + (-1));
        assert(i - 1 + w == i + 1 * w + (-1));
        assert(i + 1 - w == i + (-1) * w + 1);
        assert(i + 1 + w == i + 1 * w + 1);
    }
}

} // verus!
