use gitxel_art::image_proc::{
    grayscale_to_commits, image_to_commit_grid, ImageError, DAYS_IN_WEEK, MAX_WEEKS,
};

#[test]
fn test_grayscale_thresholds() {
    assert_eq!(grayscale_to_commits(0), 8);
    assert_eq!(grayscale_to_commits(51), 8);
    assert_eq!(grayscale_to_commits(52), 4);
    assert_eq!(grayscale_to_commits(102), 4);
    assert_eq!(grayscale_to_commits(103), 2);
    assert_eq!(grayscale_to_commits(153), 2);
    assert_eq!(grayscale_to_commits(154), 1);
    assert_eq!(grayscale_to_commits(204), 1);
    assert_eq!(grayscale_to_commits(205), 0);
    assert_eq!(grayscale_to_commits(255), 0);
}

#[test]
fn darker_pixels_never_give_fewer_commits() {
    for darker in 0..=255u8 {
        for lighter in darker..=255u8 {
            assert!(grayscale_to_commits(darker) >= grayscale_to_commits(lighter));
        }
    }
}

#[test]
fn every_pixel_gives_a_known_level() {
    for v in 0..=255u8 {
        assert!([0, 1, 2, 4, 8].contains(&grayscale_to_commits(v)));
    }
}

#[test]
fn small_image_is_placed_top_left() {
    // 3 x 2 image, row by row.
    let luma = vec![0u8, 60, 120, 180, 230, 255];
    let grid = image_to_commit_grid(3, 2, &luma).unwrap();
    assert_eq!(grid.len(), DAYS_IN_WEEK);
    for row in &grid {
        assert_eq!(row.len(), MAX_WEEKS);
    }
    assert_eq!(&grid[0][..3], &[8, 4, 2]);
    assert_eq!(&grid[1][..3], &[1, 0, 0]);
    let total: usize = grid.iter().map(|r| r.iter().sum::<usize>()).sum();
    assert_eq!(total, 8 + 4 + 2 + 1);
    assert!(grid[0][3..].iter().all(|&c| c == 0));
    assert!(grid[2..].iter().all(|r| r.iter().all(|&c| c == 0)));
}

#[test]
fn full_size_image_fills_grid() {
    let luma = vec![0u8; MAX_WEEKS * DAYS_IN_WEEK];
    let grid = image_to_commit_grid(49, 7, &luma).unwrap();
    assert!(grid.iter().all(|r| r.iter().all(|&c| c == 8)));
    let total: usize = grid.iter().map(|r| r.iter().sum::<usize>()).sum();
    assert_eq!(total, 2744);
}

#[test]
fn empty_image_gives_empty_grid() {
    let grid = image_to_commit_grid(0, 0, &Vec::new()).unwrap();
    assert_eq!(grid.len(), 7);
    assert!(grid.iter().all(|r| r.len() == 49 && r.iter().all(|&c| c == 0)));
}

#[test]
fn too_wide_image_is_refused() {
    let luma = vec![0u8; 50];
    assert_eq!(
        image_to_commit_grid(50, 1, &luma),
        Err(ImageError::TooLarge { width: 50, height: 1 })
    );
}

#[test]
fn too_tall_image_is_refused() {
    let luma = vec![0u8; 8];
    assert_eq!(
        image_to_commit_grid(1, 8, &luma),
        Err(ImageError::TooLarge { width: 1, height: 8 })
    );
}

use gitxel_art::image_proc::image_bytes_to_commit_grid;
use image::{GrayImage, ImageFormat, Luma};
use std::io::Cursor;

fn png_bytes(width: u32, height: u32, pixels: &[u8]) -> Vec<u8> {
    let img = GrayImage::from_fn(width, height, |x, y| Luma([pixels[(y * width + x) as usize]]));
    let mut out = Cursor::new(Vec::new());
    img.write_to(&mut out, ImageFormat::Png).unwrap();
    out.into_inner()
}

#[test]
fn png_file_becomes_grid() {
    let bytes = png_bytes(3, 2, &[0, 60, 120, 180, 230, 255]);
    let grid = image_bytes_to_commit_grid(&bytes, "png").unwrap();
    assert_eq!(grid.len(), 7);
    assert_eq!(&grid[0][..4], &[8, 4, 2, 0]);
    assert_eq!(&grid[1][..4], &[1, 0, 0, 0]);
    let upper = image_bytes_to_commit_grid(&bytes, "PNG").unwrap();
    assert_eq!(upper, grid);
}

#[test]
fn oversize_png_is_refused() {
    let bytes = png_bytes(50, 1, &[0; 50]);
    assert_eq!(
        image_bytes_to_commit_grid(&bytes, "png"),
        Err(ImageError::TooLarge { width: 50, height: 1 })
    );
}

#[test]
fn undecodable_files_are_refused() {
    let bytes = png_bytes(2, 2, &[0; 4]);
    assert_eq!(image_bytes_to_commit_grid(&bytes, "txt"), Err(ImageError::Undecodable));
    assert_eq!(image_bytes_to_commit_grid(&bytes, ""), Err(ImageError::Undecodable));
    assert_eq!(image_bytes_to_commit_grid(&bytes, "jpg"), Err(ImageError::Undecodable));
    assert_eq!(image_bytes_to_commit_grid(b"not an image", "png"), Err(ImageError::Undecodable));
}
