use image_merger::image::Image;
use image_merger::merger::Merger;
use image_merger::merger::MergerError;

/// A `w x h` image with `c` channels, every subpixel set to `v`.
fn uniform_image(w: u32, h: u32, c: u32, v: u8) -> Image {
    Image::from_raw(w, h, c, vec![v; (w * h * c) as usize]).unwrap()
}

#[test]
fn three_pushes_fill_first_row_then_growth() {
    let mut m = Merger::new(10, 10, 3, 1, 4);
    assert_eq!(m.pasted_images_len(), 0);
    assert_eq!(m.total_rows(), 1);
    assert_eq!(m.canvas().width(), 30);
    assert_eq!(m.canvas().height(), 10);

    let imgs = [
        uniform_image(10, 10, 4, 11),
        uniform_image(10, 10, 4, 22),
        uniform_image(10, 10, 4, 33),
    ];
    for img in &imgs {
        assert!(m.push(img).is_ok());
    }
    // No growth yet; the three images sit at (0,0), (10,0), (20,0).
    assert_eq!(m.pasted_images_len(), 3);
    assert_eq!(m.total_rows(), 1);
    assert_eq!(m.canvas().height(), 10);
    assert_eq!(m.canvas().get(0, 0, 0), 11);
    assert_eq!(m.canvas().get(9, 9, 3), 11);
    assert_eq!(m.canvas().get(10, 0, 0), 22);
    assert_eq!(m.canvas().get(19, 9, 3), 22);
    assert_eq!(m.canvas().get(20, 0, 0), 33);
    assert_eq!(m.canvas().get(29, 9, 3), 33);

    // A fourth push grows the canvas to two rows and lands at (0, 10).
    assert!(m.push(&uniform_image(10, 10, 4, 44)).is_ok());
    assert_eq!(m.pasted_images_len(), 4);
    assert_eq!(m.total_rows(), 2);
    assert_eq!(m.canvas().height(), 20);
    assert_eq!(m.canvas().get(0, 10, 0), 44);
    assert_eq!(m.canvas().get(9, 19, 3), 44);
}

#[test]
fn dimension_mismatch_leaves_state_unchanged() {
    let mut m = Merger::new(10, 10, 3, 1, 4);
    assert!(m.push(&uniform_image(10, 10, 4, 7)).is_ok());
    let small = uniform_image(5, 5, 4, 9);
    assert_eq!(m.push(&small), Err(MergerError::DimensionMismatch));
    assert_eq!(m.pasted_images_len(), 1);
    assert_eq!(m.total_rows(), 1);
    assert_eq!(m.canvas().get(0, 0, 0), 7);
}

#[test]
fn coordinates_follow_mod_div_rule() {
    let mut m = Merger::new(4, 3, 2, 1, 1);
    for i in 0..5u8 {
        assert!(m.push(&uniform_image(4, 3, 1, 100 + i)).is_ok());
    }
    // The i-th image occupies column i % 2, row i / 2, in image-size units.
    for i in 0..5u32 {
        let x = (i % 2) * 4;
        let y = (i / 2) * 3;
        for dx in 0..4 {
            for dy in 0..3 {
                assert_eq!(m.canvas().get(x + dx, y + dy, 0), 100 + i as u8);
            }
        }
    }
}

#[test]
fn growth_preserves_old_pixels_and_zero_fills_new_space() {
    let mut m = Merger::new(2, 2, 2, 1, 2);
    // Fill both slots of the single initial row with a recognizable pattern.
    let a: Vec<u8> = (0..8).collect();
    let b: Vec<u8> = (100..108).collect();
    assert!(m.push(&Image::from_raw(2, 2, 2, a.clone()).unwrap()).is_ok());
    assert!(m.push(&Image::from_raw(2, 2, 2, b.clone()).unwrap()).is_ok());
    let before: Vec<u8> = m.canvas().raw_data().clone();
    assert_eq!(before.len(), 4 * 2 * 2);

    // The canvas is now full: the next push grows it by exactly one row.
    assert!(m.push(&uniform_image(2, 2, 2, 255)).is_ok());
    assert_eq!(m.total_rows(), 2);
    assert_eq!(m.canvas().height(), 4);
    let after = m.canvas().raw_data();
    // Every old element is preserved exactly.
    for i in 0..before.len() {
        assert_eq!(after[i], before[i]);
    }
    // The new row holds the third image on the left and zero fill elsewhere.
    for dx in 0..2 {
        for dy in 0..2 {
            assert_eq!(m.canvas().get(dx, 2 + dy, 0), 255);
            assert_eq!(m.canvas().get(dx, 2 + dy, 1), 255);
            assert_eq!(m.canvas().get(2 + dx, 2 + dy, 0), 0);
            assert_eq!(m.canvas().get(2 + dx, 2 + dy, 1), 0);
        }
    }
}

#[test]
fn count_rises_by_one_per_push_and_capacity_holds() {
    let mut m = Merger::new(3, 3, 3, 1, 1);
    for i in 0..10u32 {
        assert_eq!(m.pasted_images_len(), i);
        assert!(m.push(&uniform_image(3, 3, 1, 1)).is_ok());
        assert_eq!(m.pasted_images_len(), i + 1);
        assert!(m.pasted_images_len() <= 3 * m.total_rows());
    }
    assert_eq!(m.total_rows(), 4);
}

#[test]
fn fresh_canvas_is_zero_filled() {
    let m = Merger::new(4, 4, 2, 2, 3);
    for px in 0..8 {
        for py in 0..8 {
            for ch in 0..3 {
                assert_eq!(m.canvas().get(px, py, ch), 0);
            }
        }
    }
}

#[test]
fn pushed_pixels_copied_channel_for_channel() {
    let mut m = Merger::new(3, 2, 2, 1, 2);
    let data: Vec<u8> = (10..22).collect();
    let img = Image::from_raw(3, 2, 2, data.clone()).unwrap();
    assert!(m.push(&img).is_ok());
    for py in 0..2u32 {
        for px in 0..3u32 {
            for ch in 0..2u32 {
                let expected = data[((py * 3 + px) * 2 + ch) as usize];
                assert_eq!(m.canvas().get(px, py, ch), expected);
            }
        }
    }
}

#[test]
fn bulk_push_is_unsupported() {
    let mut m = Merger::new(10, 10, 3, 1, 4);
    let imgs = vec![uniform_image(10, 10, 4, 1)];
    assert_eq!(m.bulk_push(imgs), Err(MergerError::Unsupported));
    assert_eq!(m.pasted_images_len(), 0);
}

#[test]
fn remove_image_is_unsupported() {
    let mut m = Merger::new(10, 10, 3, 1, 4);
    assert!(m.push(&uniform_image(10, 10, 4, 5)).is_ok());
    assert_eq!(m.remove_image(0), Err(MergerError::Unsupported));
    assert_eq!(m.pasted_images_len(), 1);
}

#[test]
fn from_raw_rejects_wrong_buffer_length() {
    assert!(Image::from_raw(2, 2, 1, vec![0; 3]).is_none());
    assert!(Image::from_raw(2, 2, 1, vec![0; 5]).is_none());
    assert!(Image::from_raw(2, 2, 0, vec![]).is_none());
    let img = Image::from_raw(2, 2, 1, vec![1, 2, 3, 4]).unwrap();
    assert_eq!(img.width(), 2);
    assert_eq!(img.height(), 2);
    assert_eq!(img.channels(), 1);
    assert_eq!(img.get(1, 1, 0), 4);
}
