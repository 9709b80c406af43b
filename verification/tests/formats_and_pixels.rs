use vexell::format::{batch_format_for, output_format, plan_file, size_unit, OutputFormat, SizeCodec, SizeUnit};
use vexell::paths::PathModel;
use vexell::pixels::{drop_alpha, pad_to_square, threshold_alpha, unpremultiply};
use vexell::targeting::{progress_percent, target_jpeg, QualitySearch};

fn chars(s: &str) -> Vec<char> {
    s.chars().collect()
}

fn path(anchor: &[&str], names: &[&str]) -> PathModel {
    PathModel {
        anchor: anchor.iter().map(|s| s.to_string()).collect(),
        names: names.iter().map(|s| s.to_string()).collect(),
    }
}

#[test]
fn format_names_ignore_case() {
    assert_eq!(output_format(&chars("JPEG")), OutputFormat::Jpeg);
    assert_eq!(output_format(&chars("jpg")), OutputFormat::Jpeg);
    assert_eq!(output_format(&chars("WebP")), OutputFormat::WebP);
    assert_eq!(output_format(&chars("bmp")), OutputFormat::Bmp);
    assert_eq!(output_format(&chars("ICO")), OutputFormat::Ico);
    assert_eq!(output_format(&chars("tiff")), OutputFormat::Tiff);
    assert_eq!(output_format(&chars("gif")), OutputFormat::Gif);
    assert_eq!(output_format(&chars("png")), OutputFormat::Png);
    assert_eq!(output_format(&chars("auto")), OutputFormat::Png);
    assert_eq!(output_format(&chars("tif")), OutputFormat::Png);
}

#[test]
fn auto_format_per_file() {
    assert_eq!(batch_format_for(&chars("auto"), Some(chars("SVG"))), chars("png"));
    assert_eq!(batch_format_for(&chars("auto"), Some(chars("JPG"))), chars("JPG"));
    assert_eq!(batch_format_for(&chars("auto"), None), chars("png"));
    assert_eq!(batch_format_for(&chars("webp"), Some(chars("svg"))), chars("webp"));
    assert_eq!(batch_format_for(&chars("AUTO"), Some(chars("svg"))), chars("AUTO"));
}

#[test]
fn plan_for_plain_conversion() {
    let input = path(&["/"], &["art", "Logo.SVG"]);
    let plan = plan_file(&input, None, "png", true, None);
    assert!(plan.input_is_svg);
    assert_eq!(plan.format, OutputFormat::Png);
    assert!(!plan.ico && !plan.gif);
    assert_eq!(plan.size_codec, None);
    assert_eq!(plan.actual_format, "png".to_string());
    assert_eq!(plan.output.names, vec!["art".to_string(), "Logo.png".to_string()]);
    assert!(plan.deep_compress);
}

#[test]
fn plan_for_size_target() {
    let input = path(&["/"], &["a.png"]);
    let exact = path(&[], &["out", "small.png"]);
    let plan = plan_file(&input, Some(&exact), "JPEG", true, Some(5000));
    assert!(!plan.input_is_svg);
    assert_eq!(plan.size_codec, Some(SizeCodec::Jpeg));
    assert_eq!(plan.actual_format, "jpg".to_string());
    assert_eq!(plan.output.names, vec!["out".to_string(), "small.jpg".to_string()]);
    assert!(!plan.deep_compress);
    let plan2 = plan_file(&input, None, "gif", false, Some(10));
    assert_eq!(plan2.size_codec, Some(SizeCodec::WebP));
    assert_eq!(plan2.actual_format, "webp".to_string());
    assert!(plan2.gif);
    let plan3 = plan_file(&input, None, "ico", false, None);
    assert!(plan3.ico);
    assert_eq!(plan3.output.names, vec!["a.ico".to_string()]);
}

#[test]
fn size_units_by_threshold() {
    assert_eq!(size_unit(0), SizeUnit::Bytes);
    assert_eq!(size_unit(1024), SizeUnit::Bytes);
    assert_eq!(size_unit(1025), SizeUnit::Kilobytes);
    assert_eq!(size_unit(1024 * 1024), SizeUnit::Kilobytes);
    assert_eq!(size_unit(1024 * 1024 + 1), SizeUnit::Megabytes);
    assert_eq!(size_unit(1024 * 1024 * 1024 + 1), SizeUnit::Gigabytes);
}

#[test]
fn unpremultiply_divides_by_alpha() {
    let mut d = vec![64, 32, 0, 128, 10, 20, 30, 255, 5, 6, 7, 0, 1, 2];
    unpremultiply(&mut d);
    assert_eq!(d, vec![128, 64, 0, 128, 10, 20, 30, 255, 5, 6, 7, 0, 1, 2]);
}

#[test]
fn unpremultiply_truncates_impossible_channels() {
    // a channel above its alpha divides past 255 and keeps its low byte
    let mut d = vec![200, 0, 0, 100];
    unpremultiply(&mut d);
    assert_eq!(d, vec![((200u32 * 255 + 50) / 100) as u8, 0, 0, 100]);
}

#[test]
fn unpremultiply_is_lossless_on_premultiplied_data() {
    for a in 1u32..255 {
        for c in 0..=a {
            let mut d = vec![c as u8, 0, 0, a as u8];
            unpremultiply(&mut d);
            let u = d[0] as u32;
            assert_eq!((2 * u * a + 255) / 510, c);
        }
    }
}

#[test]
fn threshold_makes_alpha_binary() {
    let mut d = vec![9, 9, 9, 127, 9, 9, 9, 128, 1, 2, 3, 255, 4, 5, 6, 0, 7];
    threshold_alpha(&mut d);
    assert_eq!(d, vec![0, 0, 0, 0, 9, 9, 9, 255, 1, 2, 3, 255, 0, 0, 0, 0, 7]);
    let once = d.clone();
    threshold_alpha(&mut d);
    assert_eq!(d, once);
}

#[test]
fn square_padding_centers_image() {
    // a 1x2 column of opaque pixels on a 2x2 canvas: offset x = 0
    let px = vec![255, 0, 0, 255, 0, 255, 0, 255];
    let (out, side) = pad_to_square(px.clone(), 1, 2);
    assert_eq!(side, 2);
    assert_eq!(out, vec![255, 0, 0, 255, 0, 0, 0, 0, 0, 255, 0, 255, 0, 0, 0, 0]);
    // a 3x1 row on a 3x3 canvas lands in the middle row
    let row = vec![1, 2, 3, 255, 4, 5, 6, 255, 7, 8, 9, 255];
    let (out, side) = pad_to_square(row, 3, 1);
    assert_eq!(side, 3);
    let mut expected = vec![0u8; 36];
    expected[12..24].copy_from_slice(&[1, 2, 3, 255, 4, 5, 6, 255, 7, 8, 9, 255]);
    assert_eq!(out, expected);
    // square input is returned unchanged
    let sq = vec![1, 2, 3, 4];
    assert_eq!(pad_to_square(sq.clone(), 1, 1), (sq, 1));
}

#[test]
fn quality_search_bisects() {
    let mut s = QualitySearch::new(1000);
    assert_eq!(s.probe_quality(), 206848); // 50.5
    let (n, keep) = s.record(5000);
    assert!(keep); // nothing kept yet
    assert_eq!((n.low, n.high), (4096, 206848));
    s = n;
    assert_eq!(s.probe_quality(), 105472); // 25.75
    let (n, keep) = s.record(900);
    assert!(keep);
    assert_eq!((n.low, n.high), (105472, 206848));
    assert_eq!(n.kept, Some(1));
    let (n2, keep) = n.record(1200);
    assert!(!keep);
    assert_eq!(n2.kept, Some(1));
    assert_eq!(n2.kept_len, 900);
}

#[test]
fn quality_search_runs_twelve_rounds() {
    let mut s = QualitySearch::new(100);
    let mut probes = Vec::new();
    while !s.is_finished() {
        let q = s.probe_quality();
        probes.push(q);
        // a fake encoder: size grows with quality
        let size = (q / 4096) as usize * 2;
        s = s.record(size).0;
    }
    assert_eq!(probes.len(), 12);
    // a bisection over f32 qualities reaches the same points
    let (mut lo, mut hi) = (1.0f32, 100.0f32);
    for q in &probes {
        let mid = (lo + hi) / 2.0;
        assert_eq!(mid, *q as f32 / 4096.0);
        if ((mid as u32) as usize * 2) > 100 {
            hi = mid;
        } else {
            lo = mid;
        }
    }
    assert!(s.kept_len <= 100);
}

fn gradient(w: u32, h: u32) -> Vec<u8> {
    let mut px = Vec::new();
    for y in 0..h {
        for x in 0..w {
            px.extend_from_slice(&[(x * 7) as u8, (y * 5) as u8, ((x + y) * 3) as u8, 128]);
        }
    }
    px
}

#[test]
fn jpeg_target_makes_a_jpeg() {
    let px = gradient(32, 32);
    let out = target_jpeg(&px, 32, 32, 100_000);
    assert_eq!(&out[..2], &[0xFF, 0xD8]);
    assert_eq!(&out[out.len() - 2..], &[0xFF, 0xD9]);
    assert!(out.len() <= 100_000);
    assert_ne!(out, px);
}

#[test]
fn jpeg_target_hits_a_tight_target() {
    let px = gradient(64, 64);
    let loose = target_jpeg(&px, 64, 64, 1_000_000);
    let tight_target = loose.len() * 2 / 3;
    let tight = target_jpeg(&px, 64, 64, tight_target);
    assert!(tight.len() <= tight_target);
    assert!(tight.len() < loose.len());
}

#[test]
fn alpha_is_dropped_for_jpeg() {
    let px = vec![1u8, 2, 3, 4, 5, 6, 7, 8, 9];
    assert_eq!(drop_alpha(&px), vec![1u8, 2, 3, 5, 6, 7]);
}

#[test]
fn progress_in_whole_percent() {
    assert_eq!(progress_percent(0), 0);
    assert_eq!(progress_percent(1), 8);
    assert_eq!(progress_percent(3), 25);
    assert_eq!(progress_percent(7), 58);
    assert_eq!(progress_percent(12), 100);
    for i in 0..=12u32 {
        assert_eq!(progress_percent(i), (i as f32 / 12.0 * 100.0) as u32);
    }
}
