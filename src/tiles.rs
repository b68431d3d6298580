use vstd::prelude::*;
use vstd::seq_lib::lemma_multiset_commutative;
use crate::api::Rectangle;

verus! {

/// Edge length, in pixels, of the square tiles an image is cut into.
pub const TILE_SIZE: usize = 32;

/// The tile whose top-left corner is `(left, top)`, clipped to the image.
pub open spec fn cell(w: usize, h: usize, size: usize, left: int, top: int) -> Rectangle {
    Rectangle {
        left: left as usize,
        top: top as usize,
        width: (if w - left < size { w - left } else { size as int }) as usize,
        height: (if h - top < size { h - top } else { size as int }) as usize,
    }
}

/// The tiles of the row starting at `top`, from column `left` rightwards.
pub open spec fn row_from(w: usize, h: usize, size: usize, left: int, top: int) -> Seq<Rectangle>
    decreases w + size - left,
{
    if 0 <= left < w && size > 0 {
        seq![cell(w, h, size, left, top)] + row_from(w, h, size, left + size, top)
    } else {
        Seq::empty()
    }
}

/// The rows of tiles from `top` downwards, each read left to right.
pub open spec fn grid_from(w: usize, h: usize, size: usize, top: int) -> Seq<Rectangle>
    decreases h + size - top,
{
    if 0 <= top < h && size > 0 {
        row_from(w, h, size, 0, top) + grid_from(w, h, size, top + size)
    } else {
        Seq::empty()
    }
}

/// Every tile of a `w` by `h` image cut into `size` squares, in reading order.
pub open spec fn tile_grid(w: usize, h: usize, size: usize) -> Seq<Rectangle> {
    grid_from(w, h, size, 0)
}

/// Squared distance from the centre of `t` to the centre of the image.
pub open spec fn center_distance(t: Rectangle, w: usize, h: usize) -> int {
    let dx = (t.left + t.width / 2) - w / 2;
    let dy = (t.top + t.height / 2) - h / 2;
    dx * dx + dy * dy
}

/// `a` is rendered no later than `b`: nearer the centre first, then by row,
/// then by column.
pub open spec fn precedes(a: Rectangle, b: Rectangle, w: usize, h: usize) -> bool {
    let da = center_distance(a, w, h);
    let db = center_distance(b, w, h);
    da < db || (da == db && (a.top < b.top || (a.top == b.top && a.left <= b.left)))
}

/// The tiles of `s` stand in rendering order.
pub open spec fn in_render_order(s: Seq<Rectangle>, w: usize, h: usize) -> bool {
    forall|i: int, j: int| 0 <= i < j < s.len() ==> precedes(#[trigger] s[i], #[trigger] s[j], w, h)
}

/// Every tile of `s` lies within a `w` by `h` image.
pub open spec fn all_fit(s: Seq<Rectangle>, w: usize, h: usize) -> bool {
    forall|i: int| 0 <= i < s.len() ==> (#[trigger] s[i]).fits(w as nat, h as nat)
}

/// Cuts a `w` by `h` image into `size` squares (clipped at the right and bottom
/// edges), in reading order.
pub fn tile_grid_of(w: usize, h: usize, size: usize) -> (r: Vec<Rectangle>)
    requires
        size > 0,
    ensures
        r@ == tile_grid(w, h, size),
        all_fit(r@, w, h),
{
    let mut tiles: Vec<Rectangle> = Vec::new();
    let mut y: usize = 0;
    while y < h
        invariant
            size > 0,
            y <= h,
            tiles@ + grid_from(w, h, size, y as int) == tile_grid(w, h, size),
            all_fit(tiles@, w, h),
        decreases h - y,
    {
        let height = if h - y < size { h - y } else { size };
        let mut x: usize = 0;
        assert(grid_from(w, h, size, y as int) == row_from(w, h, size, 0, y as int) + grid_from(
            w,
            h,
            size,
            y + size,
        ));
        assert(tiles@ + row_from(w, h, size, 0, y as int) + grid_from(w, h, size, y + size)
            == tile_grid(w, h, size));
        while x < w
            invariant
                size > 0,
                y < h,
                x <= w,
                height == (if h - y < size { h - y } else { size as int }),
                tiles@ + row_from(w, h, size, x as int, y as int) + grid_from(w, h, size, y + size)
                    == tile_grid(w, h, size),
                all_fit(tiles@, w, h),
            decreases w - x,
        {
            let width = if w - x < size { w - x } else { size };
            let ghost before = tiles@;
            let t = Rectangle::new(x, y, width, height);
            assert(t == cell(w, h, size, x as int, y as int));
            tiles.push(t);
            let ghost rest = row_from(w, h, size, x + size, y as int);
            assert(row_from(w, h, size, x as int, y as int) == seq![t] + rest);
            assert(before + (seq![t] + rest) == tiles@ + rest);
            if w - x <= size {
                assert(rest == row_from(w, h, size, w as int, y as int));
                x = w;
            } else {
                x = x + size;
            }
        }
        assert(row_from(w, h, size, x as int, y as int) == Seq::<Rectangle>::empty());
        assert(tiles@ + Seq::<Rectangle>::empty() == tiles@);
        if h - y <= size {
            assert(grid_from(w, h, size, y + size) == grid_from(w, h, size, h as int));
            y = h;
        } else {
            y = y + size;
        }
    }
    assert(grid_from(w, h, size, y as int) == Seq::<Rectangle>::empty());
    assert(tiles@ + Seq::<Rectangle>::empty() == tiles@);
    tiles
}

/// Swapping two neighbours leaves the multiset of a sequence as it was.
proof fn lemma_swap_keeps_multiset<A>(s: Seq<A>, i: int)
    requires
        0 <= i,
        i + 1 < s.len(),
    ensures
        s.update(i, s[i + 1]).update(i + 1, s[i]).to_multiset() =~= s.to_multiset(),
{
    broadcast use vstd::multiset::group_multiset_axioms;

    let t = s.update(i, s[i + 1]).update(i + 1, s[i]);
    let pre = s.take(i);
    let post = s.skip(i + 2);
    let ab = seq![s[i], s[i + 1]];
    let ba = seq![s[i + 1], s[i]];
    assert(s =~= pre + ab + post);
    assert(t =~= pre + ba + post);
    assert(ab =~= seq![s[i]] + seq![s[i + 1]]);
    assert(ba =~= seq![s[i + 1]] + seq![s[i]]);
    lemma_multiset_commutative(seq![s[i]], seq![s[i + 1]]);
    lemma_multiset_commutative(seq![s[i + 1]], seq![s[i]]);
    assert(ab.to_multiset() =~= ba.to_multiset());
    lemma_multiset_commutative(pre, ab);
    lemma_multiset_commutative(pre, ba);
    lemma_multiset_commutative(pre + ab, post);
    lemma_multiset_commutative(pre + ba, post);
}

/// Squared distance from the centre of `t` to the centre of the image.
fn distance_key(t: &Rectangle, w: usize, h: usize) -> (d: u128)
    requires
        t.fits(w as nat, h as nat),
    ensures
        d == center_distance(*t, w, h),
{
    let cx = t.left + t.width / 2;
    let cy = t.top + t.height / 2;
    let hw = w / 2;
    let hh = h / 2;
    let dx: u128 = if cx >= hw { (cx - hw) as u128 } else { (hw - cx) as u128 };
    let dy: u128 = if cy >= hh { (cy - hh) as u128 } else { (hh - cy) as u128 };
    proof {
        let sx: int = cx - hw;
        let sy: int = cy - hh;
        assert(dx * dx == sx * sx) by (nonlinear_arith)
            requires
                dx == sx || dx == -sx,
        ;
        assert(dy * dy == sy * sy) by (nonlinear_arith)
            requires
                dy == sy || dy == -sy,
        ;
        assert(dx <= 0x8000_0000_0000_0000);
        assert(dy <= 0x8000_0000_0000_0000);
        assert(dx * dx <= 0x4000_0000_0000_0000_0000_0000_0000_0000) by (nonlinear_arith)
            requires
                dx <= 0x8000_0000_0000_0000,
        ;
        assert(dy * dy <= 0x4000_0000_0000_0000_0000_0000_0000_0000) by (nonlinear_arith)
            requires
                dy <= 0x8000_0000_0000_0000,
        ;
    }
    dx * dx + dy * dy
}

/// Whether `a` is to be rendered no later than `b`.
fn goes_before(a: &Rectangle, b: &Rectangle, w: usize, h: usize) -> (r: bool)
    requires
        a.fits(w as nat, h as nat),
        b.fits(w as nat, h as nat),
    ensures
        r == precedes(*a, *b, w, h),
{
    let da = distance_key(a, w, h);
    let db = distance_key(b, w, h);
    da < db || (da == db && (a.top < b.top || (a.top == b.top && a.left <= b.left)))
}

/// Reorders `tiles` so that tiles nearer the centre of a `w` by `h` image come
/// first, ties going to the upper row and then to the left column.
pub fn order_tiles(tiles: &mut Vec<Rectangle>, w: usize, h: usize)
    requires
        all_fit(old(tiles)@, w, h),
    ensures
        final(tiles)@.to_multiset() == old(tiles)@.to_multiset(),
        in_render_order(final(tiles)@, w, h),
        all_fit(final(tiles)@, w, h),
{
    let n = tiles.len();
    let mut i: usize = 0;
    while i < n
        invariant
            0 <= i <= n,
            tiles@.len() == n,
            tiles@.to_multiset() == old(tiles)@.to_multiset(),
            all_fit(tiles@, w, h),
            forall|a: int, b: int|
                0 <= a < b < i ==> precedes(#[trigger] tiles@[a], #[trigger] tiles@[b], w, h),
        decreases n - i,
    {
        let mut j: usize = i;
        while j > 0
            invariant
                0 <= j <= i < n,
                tiles@.len() == n,
                tiles@.to_multiset() == old(tiles)@.to_multiset(),
                all_fit(tiles@, w, h),
                forall|a: int, b: int|
                    0 <= a < b <= i && a != j && b != j ==> precedes(
                        #[trigger] tiles@[a],
                        #[trigger] tiles@[b],
                        w,
                        h,
                    ),
                forall|b: int| j < b <= i ==> precedes(tiles@[j as int], #[trigger] tiles@[b], w, h),
            ensures
                j == 0 || precedes(tiles@[j - 1], tiles@[j as int], w, h),
            decreases j,
        {
            if goes_before(&tiles[j - 1], &tiles[j], w, h) {
                break;
            }
            let ghost s = tiles@;
            let lower = tiles[j - 1];
            let upper = tiles[j];
            tiles[j - 1] = upper;
            tiles[j] = lower;
            proof {
                lemma_swap_keeps_multiset(s, j - 1);
                assert(tiles@ == s.update(j - 1, s[j as int]).update(j as int, s[j - 1]));
            }
            j = j - 1;
        }
        assert forall|a: int, b: int| 0 <= a < b <= i implies precedes(
            #[trigger] tiles@[a],
            #[trigger] tiles@[b],
            w,
            h,
        ) by {
            if b == j && a < j {
                assert(precedes(tiles@[a], tiles@[j - 1], w, h));
            }
        }
        i = i + 1;
    }
}

/// Every tile of a `w` by `h` image cut into `size` squares, in the order the
/// image is to be rendered.
pub fn ordered_tiles(w: usize, h: usize, size: usize) -> (r: Vec<Rectangle>)
    requires
        size > 0,
    ensures
        r@.to_multiset() == tile_grid(w, h, size).to_multiset(),
        in_render_order(r@, w, h),
        all_fit(r@, w, h),
{
    let mut tiles = tile_grid_of(w, h, size);
    order_tiles(&mut tiles, w, h);
    tiles
}

} // verus!
