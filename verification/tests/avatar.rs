use image::DynamicImage;
use raven::avatar::{assign_avatar_hashes, avatar_urls, compute_phash, phash_distance, phash_of_bytes, phash_of_pixels, GrayImage};
use raven::types::{ClaimedProfile, ProfileDetails};

fn gray(img: &DynamicImage) -> GrayImage {
    let buf = img.to_luma8();
    GrayImage { width: buf.width(), height: buf.height(), pixels: buf.into_raw() }
}

#[test]
fn test_phash_same_image() {
    let img = gray(&DynamicImage::new_luma8(16, 16));
    let h1 = compute_phash(&img);
    let h2 = compute_phash(&img);
    assert_eq!(h1, h2);
    // no pixel of an all-black image is brighter than its mean
    assert_eq!(h1, 0);
}

#[test]
fn test_phash_distance_identity() {
    let img = gray(&DynamicImage::new_luma8(16, 16));
    let h = compute_phash(&img);
    assert_eq!(phash_distance(h, h), 0);
}

#[test]
fn test_phash_distance_different() {
    let mut img1 = DynamicImage::new_luma8(16, 16);
    let mut img2 = DynamicImage::new_luma8(16, 16);
    if let Some(buf) = img1.as_mut_luma8() {
        for (i, p) in buf.pixels_mut().enumerate() {
            p.0[0] = if i % 2 == 0 { 255 } else { 0 };
        }
    }
    if let Some(buf) = img2.as_mut_luma8() {
        for p in buf.pixels_mut() {
            p.0[0] = 128;
        }
    }
    let h1 = compute_phash(&gray(&img1));
    let h2 = compute_phash(&gray(&img2));
    assert!(phash_distance(h1, h2) > 0, "expected different hashes, got {h1} vs {h2}");
}

#[test]
fn phash_distance_counts_differing_bits() {
    assert_eq!(phash_distance(0, 0), 0);
    assert_eq!(phash_distance(0b1011, 0b0001), 2);
    assert_eq!(phash_distance(u64::MAX, 0), 64);
    assert_eq!(phash_distance(5, 9), phash_distance(9, 5));
}

#[test]
fn phash_sets_bits_above_mean() {
    // mean of 32 zeros and 32 hundreds is 50: the hundreds set their bits
    let mut px = vec![0u8; 64];
    for i in 32..64 {
        px[i] = 100;
    }
    assert_eq!(phash_of_pixels(&px), 0xFFFF_FFFF_0000_0000);
    let flat = vec![7u8; 64];
    assert_eq!(phash_of_pixels(&flat), 0);
}

#[test]
fn phash_of_encoded_image_matches_the_image() {
    let mut img = DynamicImage::new_luma8(16, 16);
    if let Some(buf) = img.as_mut_luma8() {
        for (i, p) in buf.pixels_mut().enumerate() {
            p.0[0] = (i % 256) as u8;
        }
    }
    let mut bytes: Vec<u8> = Vec::new();
    img.write_to(&mut std::io::Cursor::new(&mut bytes), image::ImageFormat::Png).unwrap();
    assert_eq!(phash_of_bytes(&bytes), Some(compute_phash(&gray(&img))));
    assert_ne!(compute_phash(&gray(&img)), 0);
}

#[test]
fn gray_image_shape_is_checked() {
    let good = GrayImage { width: 2, height: 3, pixels: vec![0; 6] };
    let bad = GrayImage { width: 2, height: 3, pixels: vec![0; 5] };
    assert!(good.is_well_formed());
    assert!(!bad.is_well_formed());
}

#[test]
fn phash_of_undecodable_bytes_is_none() {
    assert_eq!(phash_of_bytes(b"not an image"), None);
}

fn profile(site: &str, avatar: Option<&str>) -> ClaimedProfile {
    ClaimedProfile {
        site_name: site.to_string(),
        site_url: format!("https://{site}.com/u"),
        username: "u".to_string(),
        details: ProfileDetails { avatar_url: avatar.map(|s| s.to_string()), ..Default::default() },
        avatar_phash: None,
    }
}

#[test]
fn avatar_hashes_pair_in_order() {
    let mut ps = vec![profile("A", Some("https://a/x.png")), profile("B", None), profile("C", Some("https://c/y.png"))];
    let urls = avatar_urls(&ps);
    assert_eq!(urls, vec!["https://a/x.png".to_string(), "https://c/y.png".to_string()]);
    assign_avatar_hashes(&mut ps, &[Some(1), Some(2)]);
    assert_eq!(ps[0].avatar_phash, Some(1));
    assert_eq!(ps[1].avatar_phash, Some(2));
    assert_eq!(ps[2].avatar_phash, None);
    assert_eq!(ps[1].site_name, "B");
}
