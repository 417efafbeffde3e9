//! Perceptual hashes of avatars: an avatar is shrunk to an 8×8 grey
//! thumbnail, each of whose pixels gives one bit (set when the pixel is
//! brighter than the mean), and two hashes are compared by the number of bits
//! in which they differ.

use vstd::prelude::*;
use vstd::arithmetic::power2::{pow2, lemma_pow2_unfold, lemma2_to64};
use crate::text::views;
use crate::types::ClaimedProfile;

verus! {

/// The number of one bits of `x`.
pub open spec fn popcount(x: u64) -> nat
    decreases x,
{
    if x == 0 {
        0
    } else {
        (x % 2) as nat + popcount(x / 2)
    }
}

/// The number of bits in which two hashes differ.
pub open spec fn hamming(a: u64, b: u64) -> nat {
    popcount(a ^ b)
}

proof fn lemma_popcount_bound(x: u64, n: nat)
    requires
        x < pow2(n),
    ensures
        popcount(x) <= n,
    decreases n,
{
    if x != 0 {
        if n == 0 {
            lemma2_to64();
        } else {
            lemma_pow2_unfold(n);
            lemma_popcount_bound(x / 2, (n - 1) as nat);
        }
    }
}

proof fn lemma_popcount_at_most_64(x: u64)
    ensures
        popcount(x) <= 64,
{
    lemma2_to64();
    lemma_popcount_bound(x, 64);
}

proof fn lemma_popcount_zero(x: u64)
    ensures
        popcount(x) == 0 <==> x == 0,
    decreases x,
{
    if x != 0 {
        lemma_popcount_zero(x / 2);
    }
}

proof fn lemma_popcount_xor(x: u64, y: u64)
    ensures
        popcount(x ^ y) <= popcount(x) + popcount(y),
    decreases x + y,
{
    if x == 0 && y == 0 {
        assert(x ^ y == 0) by (bit_vector)
            requires
                x == 0 && y == 0,
        ;
    } else {
        assert((x ^ y) / 2 == (x / 2) ^ (y / 2)) by (bit_vector);
        assert(((x ^ y) % 2) as int <= (x % 2) as int + (y % 2) as int) by (bit_vector);
        lemma_popcount_xor(x / 2, y / 2);
    }
}

/// The number of bits in which two perceptual hashes differ (their Hamming
/// distance).
pub fn phash_distance(a: u64, b: u64) -> (d: u32)
    ensures
        d == hamming(a, b),
{
    let mut x: u64 = a ^ b;
    let mut count: u64 = 0;
    proof {
        lemma_popcount_at_most_64(a ^ b);
    }
    while x != 0
        invariant
            count + popcount(x) == popcount(a ^ b),
            popcount(a ^ b) <= 64,
        decreases x,
    {
        assert(x & 1 == x % 2) by (bit_vector);
        assert(x >> 1 == x / 2) by (bit_vector);
        count = count + (x & 1);
        x = x >> 1;
    }
    count as u32
}

/// The Hamming distance between perceptual hashes is a metric bounded by 64:
/// a hash is at distance 0 from exactly itself, the distance is symmetric,
/// and it obeys the triangle inequality.
pub proof fn phash_distance_is_metric(a: u64, b: u64, c: u64)
    ensures
        hamming(a, b) <= 64,
        hamming(a, b) == 0 <==> a == b,
        hamming(a, b) == hamming(b, a),
        hamming(a, c) <= hamming(a, b) + hamming(b, c),
{
    lemma_popcount_at_most_64(a ^ b);
    lemma_popcount_zero(a ^ b);
    assert((a ^ b == 0) <==> a == b) by (bit_vector);
    assert(a ^ b == b ^ a) by (bit_vector);
    assert(a ^ c == (a ^ b) ^ (b ^ c)) by (bit_vector);
    lemma_popcount_xor(a ^ b, b ^ c);
}


// ---------------------------------------------------------------------------
// Hashing
// ---------------------------------------------------------------------------

/// The sum of the pixel values.
pub open spec fn pixel_sum(p: Seq<u8>) -> nat
    decreases p.len(),
{
    if p.len() == 0 {
        0
    } else {
        pixel_sum(p.drop_last()) + p.last() as nat
    }
}

/// The mean brightness of a thumbnail of 64 pixels, rounded down.
pub open spec fn pixel_mean(p: Seq<u8>) -> nat {
    pixel_sum(p) / 64
}

/// `h` is the perceptual hash of some thumbnail of 64 pixels.
pub open spec fn is_thumbnail_phash(h: u64) -> bool {
    exists|p: Seq<u8>| is_phash_of(h, p)
}

/// Bit `i` of `h` is set.
pub open spec fn bit_set(h: u64, i: u64) -> bool {
    (h >> i) & 1 == 1
}

/// `h` is the perceptual hash of the 64 pixels `p`: bit `i` is set exactly
/// when pixel `i` is brighter than the mean.
pub open spec fn is_phash_of(h: u64, p: Seq<u8>) -> bool {
    &&& p.len() == 64
    &&& forall|i: u64| i < 64 ==> (bit_set(h, i) <==> p[i as int] > pixel_mean(p))
}

proof fn lemma_set_bit(x: u64, i: u64, j: u64)
    requires
        i < 64,
        j < 64,
    ensures
        bit_set(x | (1u64 << i), j) == (i == j || bit_set(x, j)),
{
    assert((((x | (1u64 << i)) >> j) & 1 == 1) == (i == j || ((x >> j) & 1 == 1))) by (bit_vector)
        requires
            i < 64,
            j < 64,
    ;
}

proof fn lemma_no_bits(j: u64)
    requires
        j < 64,
    ensures
        !bit_set(0, j),
{
    assert(((0u64 >> j) & 1) == 0) by (bit_vector);
}

/// The perceptual hash of the 64 pixels of a grey 8×8 thumbnail.
pub fn phash_of_pixels(p: &[u8]) -> (h: u64)
    requires
        p@.len() == 64,
    ensures
        is_phash_of(h, p@),
{
    let mut sum: u64 = 0;
    let mut i: usize = 0;
    while i < 64
        invariant
            p@.len() == 64,
            i <= 64,
            sum == pixel_sum(p@.take(i as int)),
            sum <= 255 * i,
        decreases 64 - i,
    {
        assert(p@.take(i + 1).drop_last() =~= p@.take(i as int));
        sum = sum + p[i] as u64;
        i += 1;
    }
    assert(p@.take(64) =~= p@);
    let mean = sum / 64;
    let mut h: u64 = 0;
    let mut k: u64 = 0;
    assert forall|j: u64| j < 64 implies !bit_set(0, j) by {
        lemma_no_bits(j);
    }
    while k < 64
        invariant
            p@.len() == 64,
            k <= 64,
            mean == pixel_mean(p@),
            forall|j: u64| j < k ==> (bit_set(h, j) <==> p@[j as int] > mean),
            forall|j: u64| k <= j < 64 ==> !bit_set(h, j),
        decreases 64 - k,
    {
        if p[k as usize] as u64 > mean {
            let ghost old_h = h;
            h = h | (1u64 << k);
            proof {
                assert forall|j: u64| j < 64 implies bit_set(h, j) == (k == j || bit_set(old_h, j)) by {
                    lemma_set_bit(old_h, k, j);
                }
            }
        }
        k += 1;
    }
    h
}

proof fn lemma_top_bit(a: u64, b: u64)
    requires
        bit_set(a, 63) == bit_set(b, 63),
    ensures
        a >> 63u64 == b >> 63u64,
{
    assert((((a >> 63u64) & 1 == 1) == ((b >> 63u64) & 1 == 1)) ==> a >> 63u64 == b >> 63u64) by (bit_vector);
}

proof fn lemma_bit_step(a: u64, b: u64, k: u64)
    requires
        k < 63,
        a >> ((k + 1) as u64) == b >> ((k + 1) as u64),
        bit_set(a, k) == bit_set(b, k),
    ensures
        a >> k == b >> k,
{
    assert(k < 63 && a >> ((k + 1) as u64) == b >> ((k + 1) as u64) && (((a >> k) & 1 == 1) == ((b
        >> k) & 1 == 1)) ==> a >> k == b >> k) by (bit_vector);
}

proof fn lemma_same_bits_from(a: u64, b: u64, k: u64)
    requires
        k <= 63,
        forall|j: u64| k <= j < 64 ==> bit_set(a, j) == bit_set(b, j),
    ensures
        a >> k == b >> k,
    decreases 63 - k,
{
    if k == 63 {
        lemma_top_bit(a, b);
    } else {
        lemma_same_bits_from(a, b, (k + 1) as u64);
        lemma_bit_step(a, b, k);
    }
}

/// Two perceptual hashes of the same pixels are the same hash: the pixels
/// determine every bit.
pub proof fn phash_is_determined(h1: u64, h2: u64, p: Seq<u8>)
    requires
        is_phash_of(h1, p),
        is_phash_of(h2, p),
    ensures
        h1 == h2,
{
    lemma_same_bits_from(h1, h2, 0);
    assert(h1 >> 0u64 == h1 && h2 >> 0u64 == h2) by (bit_vector);
}

/// A grey image with 8-bit pixels, row by row.
#[derive(Clone, Debug)]
pub struct GrayImage {
    pub width: u32,
    pub height: u32,
    pub pixels: Vec<u8>,
}

impl GrayImage {
    /// There is one pixel for each place of the image.
    pub open spec fn well_formed(&self) -> bool {
        self.pixels@.len() == self.width as int * self.height as int
    }

    /// Whether there is one pixel for each place of the image.
    pub fn is_well_formed(&self) -> (r: bool)
        ensures
            r == self.well_formed(),
    {
        let w = self.width as u128;
        let h = self.height as u128;
        assert(w * h <= 0xffff_ffff * 0xffff_ffffnat) by (nonlinear_arith)
            requires
                w <= 0xffff_ffff,
                h <= 0xffff_ffff,
        ;
        self.pixels.len() as u128 == w * h
    }
}

/// The grey 8×8 thumbnail of a grey image, its 64 pixels row by row.
///
/// Trusted: wraps `image::ImageBuffer::from_raw` (which accepts the pixels,
/// one per place), then `DynamicImage::resize_exact(8, 8, Lanczos3)`,
/// `grayscale` and `to_luma8`. `resize_exact` always yields the size asked
/// for (an empty image gives a blank one), so there are 64 pixels. Their
/// values are not stated: the Lanczos filter is computed with the
/// floating-point `sin`, whose precision std leaves to the platform.
#[verifier::external_body]
fn gray_thumbnail(img: &GrayImage) -> (r: Vec<u8>)
    requires
        img.well_formed(),
    ensures
        r@.len() == 64,
{
    let buf = image::GrayImage::from_raw(img.width, img.height, img.pixels.clone()).unwrap_or_default();
    let small = image::DynamicImage::ImageLuma8(buf)
        .resize_exact(8, 8, image::imageops::FilterType::Lanczos3)
        .grayscale()
        .to_luma8();
    small.pixels().map(|px| px.0[0]).collect()
}

/// The perceptual hash of a grey image: the hash of the 64 pixels of its
/// grey 8×8 thumbnail.
pub fn compute_phash(img: &GrayImage) -> (h: u64)
    requires
        img.well_formed(),
    ensures
        is_thumbnail_phash(h),
{
    let px = gray_thumbnail(img);
    let h = phash_of_pixels(px.as_slice());
    assert(is_phash_of(h, px@));
    h
}

/// The bytes hold an image that `image` can decode, its format guessed from
/// the bytes.
pub uninterp spec fn spec_image_decodes(bytes: Seq<u8>) -> bool;

/// The grey 8×8 thumbnail of the image the bytes hold; `None` when they
/// cannot be decoded.
///
/// Trusted: wraps `image::load_from_memory`, then
/// `DynamicImage::resize_exact(8, 8, Lanczos3)`, `grayscale` and `to_luma8`.
/// Whether the bytes decode depends on the bytes alone, and a decoded image
/// gives 64 pixels (as for `gray_thumbnail`). Their values are not stated,
/// for the reason given there.
#[verifier::external_body]
fn thumbnail_of_bytes(bytes: &[u8]) -> (r: Option<Vec<u8>>)
    ensures
        r is Some <==> spec_image_decodes(bytes@),
        match r {
            Some(px) => px@.len() == 64,
            None => true,
        },
{
    let img = image::load_from_memory(bytes).ok()?;
    let small = img.resize_exact(8, 8, image::imageops::FilterType::Lanczos3).grayscale().to_luma8();
    Some(small.pixels().map(|px| px.0[0]).collect())
}

/// The perceptual hash of the image in the bytes of a downloaded avatar: the
/// hash of the 64 pixels of its grey 8×8 thumbnail; `None` when they hold no
/// image that can be decoded.
pub fn phash_of_bytes(bytes: &[u8]) -> (r: Option<u64>)
    ensures
        r is Some <==> spec_image_decodes(bytes@),
        match r {
            Some(h) => is_thumbnail_phash(h),
            None => true,
        },
{
    match thumbnail_of_bytes(bytes) {
        Some(px) => {
            let h = phash_of_pixels(px.as_slice());
            assert(is_thumbnail_phash(h)) by {
                assert(is_phash_of(h, px@));
            }
            Some(h)
        },
        None => None,
    }
}

// ---------------------------------------------------------------------------
// Hashes of the found profiles
// ---------------------------------------------------------------------------

/// The avatar addresses of the profiles that show one, in order.
pub open spec fn spec_avatar_urls(ps: Seq<ClaimedProfile>) -> Seq<Seq<char>>
    decreases ps.len(),
{
    if ps.len() == 0 {
        Seq::empty()
    } else {
        spec_avatar_urls(ps.drop_last()) + match ps.last().details.avatar_url {
            Some(u) => seq![u@],
            None => Seq::empty(),
        }
    }
}

/// The avatar addresses of the profiles that show one, in order: the
/// avatars to download and hash.
pub fn avatar_urls(profiles: &[ClaimedProfile]) -> (r: Vec<String>)
    ensures
        views(r@) == spec_avatar_urls(profiles@),
{
    let mut r: Vec<String> = Vec::new();
    let mut i: usize = 0;
    while i < profiles.len()
        invariant
            i <= profiles@.len(),
            views(r@) == spec_avatar_urls(profiles@.take(i as int)),
        decreases profiles@.len() - i,
    {
        assert(profiles@.take(i + 1).drop_last() =~= profiles@.take(i as int));
        match &profiles[i].details.avatar_url {
            Some(u) => {
                let c = u.clone();
                assert(views(r@.push(c)) =~= views(r@).push(c@));
                r.push(c);
            },
            None => {
                assert(views(r@) =~= views(r@) + Seq::<Seq<char>>::empty());
            },
        }
        i += 1;
    }
    assert(profiles@.take(profiles@.len() as int) =~= profiles@);
    r
}

/// Sets the avatar hashes of the profiles from the hashes of the downloaded
/// avatars, pairing them in order: the k-th profile gets the k-th hash, as
/// far as there are hashes; nothing else changes.
pub fn assign_avatar_hashes(profiles: &mut Vec<ClaimedProfile>, hashes: &[Option<u64>])
    ensures
        final(profiles)@.len() == old(profiles)@.len(),
        forall|k: int| 0 <= k < old(profiles)@.len() ==> {
            &&& (#[trigger] final(profiles)@[k]).avatar_phash == if k < hashes@.len() {
                hashes@[k]
            } else {
                old(profiles)@[k].avatar_phash
            }
            &&& final(profiles)@[k].site_name == old(profiles)@[k].site_name
            &&& final(profiles)@[k].site_url == old(profiles)@[k].site_url
            &&& final(profiles)@[k].username == old(profiles)@[k].username
            &&& final(profiles)@[k].details == old(profiles)@[k].details
        },
{
    let n = if profiles.len() < hashes.len() {
        profiles.len()
    } else {
        hashes.len()
    };
    let mut k: usize = 0;
    while k < n
        invariant
            n <= profiles@.len(),
            n <= hashes@.len(),
            k <= n,
            profiles@.len() == old(profiles)@.len(),
            forall|j: int| 0 <= j < old(profiles)@.len() ==> {
                &&& (#[trigger] profiles@[j]).avatar_phash == if j < k {
                    hashes@[j]
                } else {
                    old(profiles)@[j].avatar_phash
                }
                &&& profiles@[j].site_name == old(profiles)@[j].site_name
                &&& profiles@[j].site_url == old(profiles)@[j].site_url
                &&& profiles@[j].username == old(profiles)@[j].username
                &&& profiles@[j].details == old(profiles)@[j].details
            },
        decreases n - k,
    {
        let ghost before = profiles@;
        let mut p = profiles.remove(k);
        p.avatar_phash = hashes[k];
        profiles.insert(k, p);
        assert(profiles@ =~= before.update(k as int, p));
        k += 1;
    }
}

} // verus!
