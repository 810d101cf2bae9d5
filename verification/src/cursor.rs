//! # Animated cursors
//!
//! Which image of an animated cursor to show: among the images of the size
//! nearest to the one wanted, the one whose turn it is at a given time.
use vstd::prelude::*;

verus! {

/// What the choice of a cursor image reads of it: its nominal size, its
/// dimensions in pixels, and how long it is shown, in milliseconds.
#[derive(Clone, Copy, Debug, Eq, PartialEq, Structural)]
pub struct ImageInfo {
    pub size: u32,
    pub width: u32,
    pub height: u32,
    pub delay: u32,
}

/// How far apart two sizes are.
pub open spec fn dist(a: u32, b: u32) -> int {
    if a >= b {
        a - b
    } else {
        b - a
    }
}

/// The first image, from `i` on, whose nominal size is nearest to `size`,
/// `best` being the nearest one before `i`.
pub open spec fn nearest_from(size: u32, imgs: Seq<ImageInfo>, i: int, best: int) -> int
    decreases imgs.len() - i,
{
    if i >= imgs.len() {
        best
    } else if dist(size, imgs[i].size) < dist(size, imgs[best].size) {
        nearest_from(size, imgs, i + 1, i)
    } else {
        nearest_from(size, imgs, i + 1, best)
    }
}

/// The first image whose nominal size is nearest to `size`.
pub open spec fn nearest(size: u32, imgs: Seq<ImageInfo>) -> int {
    nearest_from(size, imgs, 1, 0)
}

/// The positions, in order, of the first `n` images that have the
/// dimensions `width` by `height`.
pub open spec fn same_dims(imgs: Seq<ImageInfo>, width: u32, height: u32, n: int) -> Seq<int>
    decreases n,
{
    if n <= 0 {
        Seq::empty()
    } else if imgs[n - 1].width == width && imgs[n - 1].height == height {
        same_dims(imgs, width, height, n - 1).push(n - 1)
    } else {
        same_dims(imgs, width, height, n - 1)
    }
}

/// The images of the animation for `size`: those with the dimensions of the
/// nearest image.
pub open spec fn animation(size: u32, imgs: Seq<ImageInfo>) -> Seq<int> {
    let n = nearest(size, imgs);
    same_dims(imgs, imgs[n].width, imgs[n].height, imgs.len() as int)
}

/// The total delay of the images at positions `idx`.
pub open spec fn total_delay(imgs: Seq<ImageInfo>, idx: Seq<int>) -> int
    decreases idx.len(),
{
    if idx.len() == 0 {
        0
    } else {
        imgs[idx[0]].delay + total_delay(imgs, idx.drop_first())
    }
}

/// The place in `idx` of the image shown `millis` milliseconds into the
/// animation: the first whose delay reaches what is left of `millis` after
/// the delays of the images before it.
pub open spec fn pick(imgs: Seq<ImageInfo>, idx: Seq<int>, millis: int) -> int
    decreases idx.len(),
{
    if idx.len() <= 1 || millis <= imgs[idx[0]].delay {
        0
    } else {
        1 + pick(imgs, idx.drop_first(), millis - imgs[idx[0]].delay)
    }
}

/// The image shown for a cursor of `size` at `millis` milliseconds: the
/// animation for `size` loops, so the time is taken modulo its total delay
/// (and is zero when that is zero).
pub open spec fn frame_of(millis: u32, size: u32, imgs: Seq<ImageInfo>) -> int {
    let idx = animation(size, imgs);
    let total = total_delay(imgs, idx);
    let m = if total == 0 {
        0
    } else {
        (millis as int) % total
    };
    idx[pick(imgs, idx, m)]
}

/// The delay of one more image adds to the total.
proof fn lemma_total_delay_take(imgs: Seq<ImageInfo>, idx: Seq<int>, j: int)
    requires
        0 <= j < idx.len(),
    ensures
        total_delay(imgs, idx.take(j + 1)) == total_delay(imgs, idx.take(j)) + imgs[idx[j]].delay,
    decreases j,
{
    if j == 0 {
        assert(idx.take(1).drop_first() =~= Seq::<int>::empty());
        assert(idx.take(1)[0] == idx[0]);
        assert(total_delay(imgs, idx.take(0)) == 0);
        assert(total_delay(imgs, Seq::<int>::empty()) == 0);
    } else {
        lemma_total_delay_take(imgs, idx.drop_first(), j - 1);
        assert(idx.take(j + 1).drop_first() =~= idx.drop_first().take(j));
        assert(idx.take(j).drop_first() =~= idx.drop_first().take(j - 1));
        assert(idx.take(j + 1)[0] == idx[0]);
        assert(idx.take(j)[0] == idx[0]);
        assert(idx.drop_first()[j - 1] == idx[j]);
    }
}

/// The total delay of some images is the delay of the first plus that of
/// the rest, and no total is negative.
proof fn lemma_total_delay_split(imgs: Seq<ImageInfo>, idx: Seq<int>, j: int)
    requires
        0 <= j <= idx.len(),
    ensures
        total_delay(imgs, idx) == total_delay(imgs, idx.take(j)) + total_delay(imgs, idx.skip(j)),
        total_delay(imgs, idx.skip(j)) >= 0,
        total_delay(imgs, idx.take(j)) >= 0,
    decreases j,
{
    if j > 0 {
        lemma_total_delay_split(imgs, idx.drop_first(), j - 1);
        assert(idx.take(j).drop_first() =~= idx.drop_first().take(j - 1));
        assert(idx.skip(j) =~= idx.drop_first().skip(j - 1));
    } else {
        assert(idx.skip(0) =~= idx);
        assert(idx.take(0) =~= Seq::<int>::empty());
        lemma_total_delay_nonneg(imgs, idx);
    }
}

proof fn lemma_total_delay_nonneg(imgs: Seq<ImageInfo>, idx: Seq<int>)
    ensures
        total_delay(imgs, idx) >= 0,
    decreases idx.len(),
{
    if idx.len() > 0 {
        lemma_total_delay_nonneg(imgs, idx.drop_first());
    }
}

proof fn lemma_nearest_from_bounds(size: u32, imgs: Seq<ImageInfo>, i: int, best: int)
    requires
        0 <= best < imgs.len(),
        0 <= i,
    ensures
        0 <= nearest_from(size, imgs, i, best) < imgs.len(),
    decreases imgs.len() - i,
{
    if i < imgs.len() {
        if dist(size, imgs[i].size) < dist(size, imgs[best].size) {
            lemma_nearest_from_bounds(size, imgs, i + 1, i);
        } else {
            lemma_nearest_from_bounds(size, imgs, i + 1, best);
        }
    }
}

/// The positions [`same_dims`] lists lie below `n`, in increasing order,
/// and each has the dimensions.
proof fn lemma_same_dims(imgs: Seq<ImageInfo>, width: u32, height: u32, n: int)
    requires
        0 <= n <= imgs.len(),
    ensures
        forall|k: int| 0 <= k < same_dims(imgs, width, height, n).len() ==> 0 <= #[trigger] same_dims(imgs, width, height, n)[k] < n,
        forall|k: int| 0 <= k < n && imgs[k].width == width && imgs[k].height == height
            ==> same_dims(imgs, width, height, n).contains(k),
    decreases n,
{
    if n > 0 {
        lemma_same_dims(imgs, width, height, n - 1);
        let prev = same_dims(imgs, width, height, n - 1);
        let s = same_dims(imgs, width, height, n);
        if imgs[n - 1].width == width && imgs[n - 1].height == height {
            assert(s == prev.push(n - 1));
        } else {
            assert(s == prev);
        }
        assert forall|k: int| 0 <= k < n && imgs[k].width == width && imgs[k].height == height
            implies same_dims(imgs, width, height, n).contains(k) by {
            if k < n - 1 {
                assert(prev.contains(k));
                let p = choose|p: int| 0 <= p < prev.len() && prev[p] == k;
                assert(s[p] == k);
            } else {
                assert(s[s.len() - 1] == k);
            }
        }
    }
}

/// The positions of the images of the animation for `size` (see
/// [`animation`]): those with the dimensions of the first image whose
/// nominal size is nearest to `size`.
pub fn nearest_images(size: u32, images: &[ImageInfo]) -> (idx: Vec<usize>)
    requires
        images@.len() > 0,
    ensures
        idx@.map_values(|i: usize| i as int) == animation(size, images@),
        forall|k: int| 0 <= k < idx@.len() ==> (#[trigger] idx@[k]) < images@.len(),
{
    let ghost imgs = images@;
    let n = images.len();
    let mut best: usize = 0;
    let mut i: usize = 1;
    while i < n
        invariant
            n == imgs.len(),
            imgs == images@,
            1 <= i <= n,
            best < i,
            nearest(size, imgs) == nearest_from(size, imgs, i as int, best as int),
        decreases n - i,
    {
        let a = images[i].size;
        let b = images[best].size;
        let da = if size >= a { size - a } else { a - size };
        let db = if size >= b { size - b } else { b - size };
        if da < db {
            best = i;
        }
        i += 1;
    }
    let width = images[best].width;
    let height = images[best].height;
    let mut idx: Vec<usize> = Vec::new();
    let mut k: usize = 0;
    while k < n
        invariant
            n == imgs.len(),
            imgs == images@,
            k <= n,
            idx@.map_values(|i: usize| i as int) == same_dims(imgs, width, height, k as int),
            forall|j: int| 0 <= j < idx@.len() ==> (#[trigger] idx@[j]) < k,
        decreases n - k,
    {
        if images[k].width == width && images[k].height == height {
            idx.push(k);
        }
        k += 1;
        assert(idx@.map_values(|i: usize| i as int) =~= same_dims(imgs, width, height, k as int));
    }
    idx
}

/// The position of the image shown for a cursor of `size` at `millis`
/// milliseconds (see [`frame_of`]).
pub fn frame(millis: u32, size: u32, images: &[ImageInfo]) -> (i: usize)
    requires
        images@.len() > 0,
        total_delay(images@, animation(size, images@)) <= u32::MAX,
    ensures
        i == frame_of(millis, size, images@),
{
    let ghost imgs = images@;
    let idx = nearest_images(size, images);
    let ghost s = animation(size, imgs);
    proof {
        lemma_nearest_from_bounds(size, imgs, 1, 0);
        let nb = nearest(size, imgs);
        lemma_same_dims(imgs, imgs[nb].width, imgs[nb].height, imgs.len() as int);
        assert(s.contains(nb));
        assert(s.len() > 0);
    }
    let n = idx.len();
    let mut total: u32 = 0;
    let mut j: usize = 0;
    while j < n
        invariant
            imgs == images@,
            n == idx@.len(),
            s == idx@.map_values(|i: usize| i as int),
            forall|k: int| 0 <= k < idx@.len() ==> (#[trigger] idx@[k]) < imgs.len(),
            total_delay(imgs, s) <= u32::MAX,
            j <= n,
            total == total_delay(imgs, s.take(j as int)),
        decreases n - j,
    {
        proof {
            lemma_total_delay_take(imgs, s, j as int);
            lemma_total_delay_split(imgs, s, j as int + 1);
        }
        total = total + images[idx[j]].delay;
        j += 1;
    }
    assert(s.take(n as int) =~= s);
    let mut m: u32 = if total == 0 { 0 } else { millis % total };
    let ghost m0 = m as int;
    let mut j: usize = 0;
    while j < n
        invariant
            imgs == images@,
            n == idx@.len(),
            n > 0,
            s == idx@.map_values(|i: usize| i as int),
            forall|k: int| 0 <= k < idx@.len() ==> (#[trigger] idx@[k]) < imgs.len(),
            j <= n,
            m <= total_delay(imgs, s.skip(j as int)),
            j > 0 ==> m > 0,
            pick(imgs, s, m0) == j + pick(imgs, s.skip(j as int), m as int),
            frame_of(millis, size, imgs) == s[pick(imgs, s, m0)],
        decreases n - j,
    {
        let d = images[idx[j]].delay;
        let ghost rest = s.skip(j as int);
        assert(rest[0] == idx@[j as int]);
        if m <= d {
            return idx[j];
        }
        proof {
            assert(rest.drop_first() =~= s.skip(j as int + 1));
            lemma_total_delay_nonneg(imgs, rest.drop_first());
        }
        m = m - d;
        j += 1;
    }
    proof {
        assert(s.skip(n as int) =~= Seq::<int>::empty());
    }
    idx[0]
}

} // verus!
