use vstd::prelude::*;
use image::{GenericImageView, ImageFormat};
use crate::grid::{grid_is_rectangular, grid_total, grid_weeks, row_total};

verus! {

/// Number of weeks (columns) in the contribution grid.
pub const MAX_WEEKS: usize = 49;

/// Number of days (rows) in the contribution grid.
pub const DAYS_IN_WEEK: usize = 7;

/// The number of commits that a grayscale value stands for.
pub open spec fn commits_for_gray(value: u8) -> usize {
    if value <= 51 {
        8
    } else if value <= 102 {
        4
    } else if value <= 153 {
        2
    } else if value <= 204 {
        1
    } else {
        0
    }
}

/// Convert a grayscale pixel value (0-255) to a number of commits.
/// Darker pixels (near black) produce more commits so that they appear darker green.
pub fn grayscale_to_commits(value: u8) -> (commits: usize)
    ensures
        commits == commits_for_gray(value),
{
    if value <= 51 {
        8
    } else if value <= 102 {
        4
    } else if value <= 153 {
        2
    } else if value <= 204 {
        1
    } else {
        0
    }
}

/// Why an image cannot be turned into a commit grid.
#[derive(Clone, Copy, Debug, PartialEq, Eq, Structural)]
pub enum ImageError {
    /// The image is wider than `MAX_WEEKS` or taller than `DAYS_IN_WEEK` pixels.
    TooLarge { width: u32, height: u32 },
    /// The bytes are not an image in the format that the file extension names.
    Undecodable,
}

/// The width, height and row-by-row grayscale pixels of the image that `bytes` hold in the
/// format that `extension` names, if they hold one.
pub uninterp spec fn decoded_luma(bytes: Seq<u8>, extension: Seq<char>) -> Option<(u32, u32, Seq<u8>)>;

/// Calls `image::ImageFormat::from_extension`, then `image::load_from_memory_with_format`,
/// then reads the image's `dimensions` and its `to_luma8` pixels. Claimed: the result is a
/// function of the bytes and the extension, named `decoded_luma`, and holds one grayscale
/// byte per pixel. What the decoders make of the bytes is left unsaid.
#[verifier::external_body]
fn decode_luma(bytes: &[u8], extension: &str) -> (decoded: Option<(u32, u32, Vec<u8>)>)
    ensures
        match decoded {
            Some((w, h, luma)) => decoded_luma(bytes@, extension@) == Some((w, h, luma@))
                && luma@.len() == w * h,
            None => decoded_luma(bytes@, extension@) is None,
        },
{
    let format = ImageFormat::from_extension(extension)?;
    let img = image::load_from_memory_with_format(bytes, format).ok()?;
    let (width, height) = img.dimensions();
    Some((width, height, img.to_luma8().into_raw()))
}

/// The commits of cell `(y, x)` of the grid made from a grayscale image of `width` by `height`
/// pixels, stored row by row in `luma`: the commits of the pixel there, or none outside the image.
pub open spec fn image_cell(width: int, height: int, luma: Seq<u8>, y: int, x: int) -> usize {
    if y < height && x < width {
        commits_for_gray(luma[y * width + x])
    } else {
        0
    }
}

/// `grid` is the 7x49 commit grid of the image.
pub open spec fn is_image_grid(width: int, height: int, luma: Seq<u8>, grid: Seq<Seq<usize>>) -> bool {
    &&& grid.len() == DAYS_IN_WEEK
    &&& forall|y: int| 0 <= y < DAYS_IN_WEEK ==> #[trigger] grid[y].len() == MAX_WEEKS
    &&& forall|y: int, x: int|
        0 <= y < DAYS_IN_WEEK && 0 <= x < MAX_WEEKS ==> #[trigger] grid[y][x] == image_cell(
            width,
            height,
            luma,
            y,
            x,
        )
}

/// Map a grayscale image to a 7x49 commit grid (7 days x 49 weeks).
/// `luma` holds the grayscale value of each pixel, row by row. An image smaller than 7x49
/// is placed in the top left corner of the grid, with the surrounding days empty; a larger
/// one is refused.
pub fn image_to_commit_grid(width: u32, height: u32, luma: &Vec<u8>) -> (result: Result<
    Vec<Vec<usize>>,
    ImageError,
>)
    requires
        luma.len() == width * height,
    ensures
        result is Err <==> width > MAX_WEEKS || height > DAYS_IN_WEEK,
        result matches Err(e) ==> e == (ImageError::TooLarge { width, height }),
        result matches Ok(grid) ==> is_image_grid(
            width as int,
            height as int,
            luma@,
            grid.deep_view(),
        ),
        result matches Ok(grid) ==> forall|y: int, x: int|
            0 <= y < height && 0 <= x < width ==> #[trigger] grid@[y]@[x] == commits_for_gray(
                luma@[y * width + x],
            ),
        result matches Ok(grid) ==> forall|y: int, x: int|
            0 <= y < DAYS_IN_WEEK && 0 <= x < MAX_WEEKS && (y >= height || x >= width)
                ==> #[trigger] grid@[y]@[x] == 0,
{
    if width > MAX_WEEKS as u32 || height > DAYS_IN_WEEK as u32 {
        return Err(ImageError::TooLarge { width, height });
    }
    let mut commit_grid: Vec<Vec<usize>> = Vec::new();
    let mut y: usize = 0;
    while y < DAYS_IN_WEEK
        invariant
            width <= MAX_WEEKS,
            height <= DAYS_IN_WEEK,
            luma.len() == width * height,
            y <= DAYS_IN_WEEK,
            commit_grid.len() == y,
            forall|r: int| 0 <= r < y ==> #[trigger] commit_grid@[r].len() == MAX_WEEKS,
            forall|r: int, x: int|
                0 <= r < y && 0 <= x < MAX_WEEKS ==> #[trigger] commit_grid@[r]@[x] == image_cell(
                    width as int,
                    height as int,
                    luma@,
                    r,
                    x,
                ),
        decreases DAYS_IN_WEEK - y,
    {
        let mut row: Vec<usize> = Vec::new();
        let mut x: usize = 0;
        while x < MAX_WEEKS
            invariant
                width <= MAX_WEEKS,
                height <= DAYS_IN_WEEK,
                luma.len() == width * height,
                y < DAYS_IN_WEEK,
                x <= MAX_WEEKS,
                row.len() == x,
                forall|c: int| 0 <= c < x ==> #[trigger] row@[c] == image_cell(
                    width as int,
                    height as int,
                    luma@,
                    y as int,
                    c,
                ),
            decreases MAX_WEEKS - x,
        {
            let commits = if y < height as usize && x < width as usize {
                let w = width as usize;
                assert(y * w + x < luma.len() && y * w <= y * w + x) by (nonlinear_arith)
                    requires
                        y < height,
                        x < w,
                        luma.len() == w * height,
                ;
                grayscale_to_commits(luma[y * w + x])
            } else {
                0
            };
            row.push(commits);
            x = x + 1;
        }
        commit_grid.push(row);
        y = y + 1;
    }
    proof {
        let g = commit_grid.deep_view();
        assert forall|r: int| 0 <= r < DAYS_IN_WEEK implies #[trigger] g[r].len() == MAX_WEEKS by {
            assert(commit_grid@[r].len() == MAX_WEEKS);
            assert(g[r] =~= commit_grid@[r]@);
        }
        assert forall|r: int, c: int|
            0 <= r < DAYS_IN_WEEK && 0 <= c < MAX_WEEKS implies #[trigger] g[r][c] == image_cell(
            width as int,
            height as int,
            luma@,
            r,
            c,
        ) by {
            assert(commit_grid@[r].len() == MAX_WEEKS);
            assert(g[r] =~= commit_grid@[r]@);
            assert(commit_grid@[r]@[c] == image_cell(width as int, height as int, luma@, r, c));
        }
        law_image_grid_cells(width as int, height as int, luma@, g);
        assert forall|r: int, c: int| 0 <= r < height && 0 <= c < width implies #[trigger] commit_grid@[r]@[c]
            == commits_for_gray(luma@[r * width + c]) by {
            assert(commit_grid@[r].len() == MAX_WEEKS);
            assert(g[r] =~= commit_grid@[r]@);
            assert(g[r][c] == commits_for_gray(luma@[r * width + c]));
        }
        assert forall|r: int, c: int|
            0 <= r < DAYS_IN_WEEK && 0 <= c < MAX_WEEKS && (r >= height || c >= width) implies #[trigger] commit_grid@[r]@[c]
            == 0 by {
            assert(commit_grid@[r].len() == MAX_WEEKS);
            assert(g[r] =~= commit_grid@[r]@);
            assert(g[r][c] == 0);
        }
    }
    Ok(commit_grid)
}

/// Decode an image file's bytes, in the format that its extension names, and map it to the
/// 7x49 commit grid.
pub fn image_bytes_to_commit_grid(bytes: &[u8], extension: &str) -> (result: Result<
    Vec<Vec<usize>>,
    ImageError,
>)
    ensures
        match decoded_luma(bytes@, extension@) {
            None => result == Err::<Vec<Vec<usize>>, ImageError>(ImageError::Undecodable),
            Some((w, h, luma)) => {
                &&& result is Err <==> (w > MAX_WEEKS || h > DAYS_IN_WEEK)
                &&& result matches Err(e) ==> e == (ImageError::TooLarge { width: w, height: h })
                &&& result matches Ok(g) ==> is_image_grid(w as int, h as int, luma, g.deep_view())
                &&& result matches Ok(g) ==> forall|y: int, x: int|
                    0 <= y < h && 0 <= x < w ==> #[trigger] g@[y]@[x] == commits_for_gray(
                        luma[y * w + x],
                    )
            },
        },
{
    match decode_luma(bytes, extension) {
        Some((width, height, luma)) => image_to_commit_grid(width, height, &luma),
        None => Err(ImageError::Undecodable),
    }
}

/// In the grid of an image, the cell at row `y` and column `x` is the commits of the pixel at
/// row `y` and column `x` of the image, read at offset `y * width + x` of the row-by-row
/// pixels; the cells outside the image are empty.
pub proof fn law_image_grid_cells(width: int, height: int, luma: Seq<u8>, grid: Seq<Seq<usize>>)
    requires
        is_image_grid(width, height, luma, grid),
        0 <= width <= MAX_WEEKS,
        0 <= height <= DAYS_IN_WEEK,
    ensures
        forall|y: int, x: int|
            0 <= y < height && 0 <= x < width ==> #[trigger] grid[y][x] == commits_for_gray(
                luma[y * width + x],
            ),
        forall|y: int, x: int|
            0 <= y < DAYS_IN_WEEK && 0 <= x < MAX_WEEKS && (y >= height || x >= width)
                ==> #[trigger] grid[y][x] == 0,
        forall|y: int, x: int|
            0 <= y < DAYS_IN_WEEK && 0 <= x < MAX_WEEKS && #[trigger] grid[y][x] != 0 ==> y
                < height && x < width && luma[y * width + x] < 205,
{
    assert forall|y: int, x: int|
        0 <= y < DAYS_IN_WEEK && 0 <= x < MAX_WEEKS && #[trigger] grid[y][x] != 0 implies y
            < height && x < width && luma[y * width + x] < 205 by {
        assert(grid[y][x] == image_cell(width, height, luma, y, x));
    }
}

/// Darker pixels never produce fewer commits than lighter ones.
pub proof fn law_darker_means_more_commits(darker: u8, lighter: u8)
    requires
        darker <= lighter,
    ensures
        commits_for_gray(darker) >= commits_for_gray(lighter),
{
}

/// Every pixel produces one of the counts 0, 1, 2, 4 or 8.
pub proof fn law_commit_levels(value: u8)
    ensures
        commits_for_gray(value) == 0 || commits_for_gray(value) == 1 || commits_for_gray(value)
            == 2 || commits_for_gray(value) == 4 || commits_for_gray(value) == 8,
{
}

/// A row of at most eight commits a cell adds up to at most eight times its length.
proof fn lemma_row_total_at_most(row: Seq<usize>)
    requires
        forall|i: int| 0 <= i < row.len() ==> #[trigger] row[i] <= 8,
    ensures
        row_total(row) <= 8 * row.len(),
    decreases row.len(),
{
    if row.len() > 0 {
        lemma_row_total_at_most(row.drop_last());
    }
}

proof fn lemma_grid_total_at_most(grid: Seq<Seq<usize>>)
    requires
        forall|y: int| 0 <= y < grid.len() ==> #[trigger] grid[y].len() == MAX_WEEKS,
        forall|y: int, x: int|
            0 <= y < grid.len() && 0 <= x < MAX_WEEKS ==> #[trigger] grid[y][x] <= 8,
    ensures
        grid_total(grid) <= 8 * MAX_WEEKS * grid.len(),
    decreases grid.len(),
{
    if grid.len() > 0 {
        lemma_grid_total_at_most(grid.drop_last());
        let last = grid.last();
        assert forall|i: int| 0 <= i < last.len() implies #[trigger] last[i] <= 8 by {
            assert(grid[grid.len() - 1][i] <= 8);
        }
        lemma_row_total_at_most(last);
    }
}

/// The grid of an image is rectangular, 49 weeks wide, and asks for at most 2744 commits:
/// it can always be handed to commit generation.
pub proof fn law_image_grid_is_plannable(
    width: int,
    height: int,
    luma: Seq<u8>,
    grid: Seq<Seq<usize>>,
)
    requires
        is_image_grid(width, height, luma, grid),
    ensures
        grid_is_rectangular(grid),
        grid_weeks(grid) == MAX_WEEKS,
        grid_total(grid) <= 8 * MAX_WEEKS * DAYS_IN_WEEK,
{
    assert(grid[0].len() == MAX_WEEKS);
    assert forall|y: int, x: int|
        0 <= y < grid.len() && 0 <= x < MAX_WEEKS implies #[trigger] grid[y][x] <= 8 by {
        assert(grid[y][x] == image_cell(width, height, luma, y, x));
    }
    lemma_grid_total_at_most(grid);
}

} // verus!
