use vstd::prelude::*;
use crate::image_proc::commits_for_gray;
use crate::grid::{grid_total, grid_weeks, lemma_grid_prefix_bound, lemma_row_prefix_total, row_total};

verus! {

/// The colors of the GitHub contribution calendar.
pub struct GitHubColors;

impl GitHubColors {
    /// #161b22 - 0 commits
    pub const EMPTY: (u8, u8, u8) = (22, 27, 34);

    /// #0e4429 - 1 commit
    pub const LEVEL_1: (u8, u8, u8) = (14, 68, 41);

    /// #016d32 - 2 commits
    pub const LEVEL_2: (u8, u8, u8) = (1, 109, 50);

    /// #26a641 - 4 commits
    pub const LEVEL_3: (u8, u8, u8) = (38, 166, 65);

    /// #39d353 - 8 commits
    pub const LEVEL_4: (u8, u8, u8) = (57, 211, 83);

    /// The color of a day with `commits` commits.
    pub fn color_for_commits(commits: usize) -> (color: (u8, u8, u8))
        ensures
            color == commit_color(commits as int),
    {
        if commits == 0 {
            Self::EMPTY
        } else if commits == 1 {
            Self::LEVEL_1
        } else if commits == 2 {
            Self::LEVEL_2
        } else if commits == 3 || commits == 4 {
            Self::LEVEL_3
        } else {
            Self::LEVEL_4
        }
    }
}

/// The color of a day with `commits` commits.
pub open spec fn commit_color(commits: int) -> (u8, u8, u8) {
    if commits == 0 {
        GitHubColors::EMPTY
    } else if commits == 1 {
        GitHubColors::LEVEL_1
    } else if commits == 2 {
        GitHubColors::LEVEL_2
    } else if commits == 3 || commits == 4 {
        GitHubColors::LEVEL_3
    } else {
        GitHubColors::LEVEL_4
    }
}

/// What the header of the preview shows above a week.
#[derive(Clone, Copy, Debug, PartialEq, Eq, Structural)]
pub enum WeekMarker {
    /// The week's number, right-aligned in two characters: every fifth week.
    Number(usize),
    /// Nothing at all: the week after a numbered one.
    Nothing,
    /// Two blanks.
    Blank,
}

/// The header marker above week `week` (counted from 0).
pub open spec fn week_marker_of(week: int) -> WeekMarker {
    if (week + 1) % 5 == 0 {
        WeekMarker::Number((week + 1) as usize)
    } else if (week + 1) % 5 == 1 && week > 0 {
        WeekMarker::Nothing
    } else {
        WeekMarker::Blank
    }
}

/// The header marker above week `week` (counted from 0): markers every 5 weeks.
pub fn week_marker(week: usize) -> (marker: WeekMarker)
    requires
        week < usize::MAX,
    ensures
        marker == week_marker_of(week as int),
{
    if (week + 1) % 5 == 0 {
        WeekMarker::Number(week + 1)
    } else if (week + 1) % 5 == 1 && week > 0 {
        WeekMarker::Nothing
    } else {
        WeekMarker::Blank
    }
}

/// The label of row `day`: the days of the week from Sunday on, blanks past Saturday.
pub open spec fn day_label_text(day: int) -> Seq<char> {
    if day == 0 {
        seq!['S', 'u', 'n']
    } else if day == 1 {
        seq!['M', 'o', 'n']
    } else if day == 2 {
        seq!['T', 'u', 'e']
    } else if day == 3 {
        seq!['W', 'e', 'd']
    } else if day == 4 {
        seq!['T', 'h', 'u']
    } else if day == 5 {
        seq!['F', 'r', 'i']
    } else if day == 6 {
        seq!['S', 'a', 't']
    } else {
        seq![' ', ' ', ' ']
    }
}

/// The label of row `day`.
pub fn day_label(day: usize) -> (label: &'static str)
    ensures
        label@ == day_label_text(day as int),
{
    if day == 0 {
        proof {
            reveal_strlit("Sun");
        }
        "Sun"
    } else if day == 1 {
        proof {
            reveal_strlit("Mon");
        }
        "Mon"
    } else if day == 2 {
        proof {
            reveal_strlit("Tue");
        }
        "Tue"
    } else if day == 3 {
        proof {
            reveal_strlit("Wed");
        }
        "Wed"
    } else if day == 4 {
        proof {
            reveal_strlit("Thu");
        }
        "Thu"
    } else if day == 5 {
        proof {
            reveal_strlit("Fri");
        }
        "Fri"
    } else if day == 6 {
        proof {
            reveal_strlit("Sat");
        }
        "Sat"
    } else {
        proof {
            reveal_strlit("   ");
        }
        "   "
    }
}

/// Everything the terminal preview of a commit grid shows, apart from fixed text.
pub struct GraphPreview {
    /// The width of the horizontal rules above and below the grid.
    pub rule_width: usize,
    /// The header marker of each week.
    pub markers: Vec<WeekMarker>,
    /// The color of each cell, row by row.
    pub rows: Vec<Vec<(u8, u8, u8)>>,
    /// The colors of the legend, for 0, 1, 2, 4 and 8 commits.
    pub legend: Vec<(u8, u8, u8)>,
    /// The sum of all the counts of the grid.
    pub total_commits: usize,
}

/// `preview` shows `grid`.
pub open spec fn preview_matches(preview: GraphPreview, grid: Seq<Seq<usize>>) -> bool {
    let weeks = grid_weeks(grid);
    &&& preview.rule_width == weeks * 2 + 8
    &&& preview.markers@.len() == weeks
    &&& forall|w: int| 0 <= w < weeks ==> #[trigger] preview.markers@[w] == week_marker_of(w)
    &&& preview.rows@.len() == grid.len()
    &&& forall|d: int|
        0 <= d < grid.len() ==> (#[trigger] preview.rows@[d])@.len() == grid[d].len()
    &&& forall|d: int, x: int|
        0 <= d < grid.len() && 0 <= x < grid[d].len() ==> #[trigger] preview.rows@[d]@[x]
            == commit_color(grid[d][x] as int)
    &&& preview.legend@ == seq![
        commit_color(0),
        commit_color(1),
        commit_color(2),
        commit_color(4),
        commit_color(8),
    ]
    &&& preview.total_commits == grid_total(grid)
}

/// Work out the TrueColor preview of the GitHub contribution graph for `commit_grid`.
pub fn build_graph_preview(commit_grid: &Vec<Vec<usize>>) -> (preview: GraphPreview)
    requires
        grid_weeks(commit_grid.deep_view()) * 2 + 8 <= usize::MAX,
        grid_total(commit_grid.deep_view()) <= usize::MAX,
    ensures
        preview_matches(preview, commit_grid.deep_view()),
{
    let ghost g = commit_grid.deep_view();
    let num_rows = commit_grid.len();
    let num_cols = if num_rows > 0 {
        commit_grid[0].len()
    } else {
        0
    };
    assert(num_cols == grid_weeks(g));
    let rule_width = num_cols * 2 + 8;

    let mut markers: Vec<WeekMarker> = Vec::new();
    let mut w: usize = 0;
    while w < num_cols
        invariant
            w <= num_cols,
            num_cols * 2 + 8 <= usize::MAX,
            markers@.len() == w,
            forall|i: int| 0 <= i < w ==> #[trigger] markers@[i] == week_marker_of(i),
        decreases num_cols - w,
    {
        markers.push(week_marker(w));
        w = w + 1;
    }

    let mut total_commits: usize = 0;
    let mut rows: Vec<Vec<(u8, u8, u8)>> = Vec::new();
    let mut d: usize = 0;
    while d < num_rows
        invariant
            g == commit_grid.deep_view(),
            num_rows == g.len(),
            grid_total(g) <= usize::MAX,
            d <= num_rows,
            total_commits == grid_total(g.take(d as int)),
            markers@.len() == grid_weeks(g),
            forall|i: int| 0 <= i < grid_weeks(g) ==> #[trigger] markers@[i] == week_marker_of(i),
            rows@.len() == d,
            forall|r: int| 0 <= r < d ==> (#[trigger] rows@[r])@.len() == g[r].len(),
            forall|r: int, x: int|
                0 <= r < d && 0 <= x < g[r].len() ==> #[trigger] rows@[r]@[x] == commit_color(
                    g[r][x] as int,
                ),
        decreases num_rows - d,
    {
        let row = &commit_grid[d];
        assert(row@ =~= g[d as int]);
        let ghost before = total_commits as int;
        proof {
            lemma_grid_prefix_bound(g, d as int);
            lemma_grid_prefix_bound(g, d + 1);
        }
        let mut colors: Vec<(u8, u8, u8)> = Vec::new();
        let mut x: usize = 0;
        while x < row.len()
            invariant
                d < g.len(),
                row@ == g[d as int],
                x <= row.len(),
                colors@.len() == x,
                forall|c: int| 0 <= c < x ==> #[trigger] colors@[c] == commit_color(row@[c] as int),
                total_commits == before + row_total(row@.take(x as int)),
                before + row_total(row@) <= usize::MAX,
            decreases row.len() - x,
        {
            proof {
                lemma_row_prefix_total(row@, x as int);
                lemma_row_prefix_total(row@, x + 1);
            }
            let commits = row[x];
            total_commits = total_commits + commits;
            colors.push(GitHubColors::color_for_commits(commits));
            x = x + 1;
        }
        assert(row@.take(row.len() as int) =~= row@);
        rows.push(colors);
        d = d + 1;
    }
    assert(g.take(num_rows as int) =~= g);

    let mut legend: Vec<(u8, u8, u8)> = Vec::new();
    legend.push(GitHubColors::color_for_commits(0));
    legend.push(GitHubColors::color_for_commits(1));
    legend.push(GitHubColors::color_for_commits(2));
    legend.push(GitHubColors::color_for_commits(4));
    legend.push(GitHubColors::color_for_commits(8));
    assert(legend@ =~= seq![
        commit_color(0),
        commit_color(1),
        commit_color(2),
        commit_color(4),
        commit_color(8),
    ]);
    GraphPreview { rule_width, markers, rows, legend, total_commits }
}

/// Each level of commits that a pixel can give shows in its own color, and darker pixels
/// never show in a lighter color level than lighter pixels.
pub proof fn law_pixel_levels_have_own_colors(darker: u8, lighter: u8)
    requires
        darker <= lighter,
    ensures
        commit_color(0) != commit_color(1),
        commit_color(1) != commit_color(2),
        commit_color(2) != commit_color(4),
        commit_color(4) != commit_color(8),
        commit_color(0) != commit_color(8),
        color_level(commit_color(commits_for_gray(darker) as int)) >= color_level(
            commit_color(commits_for_gray(lighter) as int),
        ),
{
}

/// The position of a color in the calendar's scale, from empty (0) to darkest green (4).
pub open spec fn color_level(color: (u8, u8, u8)) -> int {
    if color == GitHubColors::EMPTY {
        0
    } else if color == GitHubColors::LEVEL_1 {
        1
    } else if color == GitHubColors::LEVEL_2 {
        2
    } else if color == GitHubColors::LEVEL_3 {
        3
    } else {
        4
    }
}

} // verus!
