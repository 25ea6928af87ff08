use vstd::prelude::*;

verus! {

/// The sum of a row of commit counts.
pub open spec fn row_total(row: Seq<usize>) -> int
    decreases row.len(),
{
    if row.len() == 0 {
        0
    } else {
        row_total(row.drop_last()) + row.last()
    }
}

/// The sum of all the commit counts of a grid, row by row.
pub open spec fn grid_total(grid: Seq<Seq<usize>>) -> int
    decreases grid.len(),
{
    if grid.len() == 0 {
        0
    } else {
        grid_total(grid.drop_last()) + row_total(grid.last())
    }
}

/// The number of weeks (columns) that a grid is walked over: the length of its first row.
pub open spec fn grid_weeks(grid: Seq<Seq<usize>>) -> int {
    if grid.len() > 0 {
        grid[0].len() as int
    } else {
        0
    }
}

/// Every row has the same length.
pub open spec fn grid_is_rectangular(grid: Seq<Seq<usize>>) -> bool {
    forall|d: int| 0 <= d < grid.len() ==> #[trigger] grid[d].len() == grid_weeks(grid)
}

/// The count of week `week` in row `day`, or 0 where the row is too short to have one.
pub open spec fn cell_count(grid: Seq<Seq<usize>>, day: int, week: int) -> int {
    if 0 <= week < grid[day].len() {
        grid[day][week] as int
    } else {
        0
    }
}

/// The smaller of two integers.
pub open spec fn min_int(a: int, b: int) -> int {
    if a <= b {
        a
    } else {
        b
    }
}

/// The counts of week `week` in the first `days` rows.
pub open spec fn week_total(grid: Seq<Seq<usize>>, week: int, days: int) -> int
    decreases days,
{
    if days <= 0 {
        0
    } else {
        week_total(grid, week, days - 1) + cell_count(grid, days - 1, week)
    }
}

/// The counts of the first `weeks` weeks of the first `days` rows, row by row.
pub open spec fn leading_weeks_total(grid: Seq<Seq<usize>>, weeks: int, days: int) -> int
    decreases days,
{
    if days <= 0 {
        0
    } else {
        leading_weeks_total(grid, weeks, days - 1) + row_total(
            grid[days - 1].take(min_int(weeks, grid[days - 1].len() as int)),
        )
    }
}

/// The counts of the first `weeks` weeks, walked week by week.
pub open spec fn weeks_total(grid: Seq<Seq<usize>>, weeks: int) -> int
    decreases weeks,
{
    if weeks <= 0 {
        0
    } else {
        weeks_total(grid, weeks - 1) + week_total(grid, weeks - 1, grid.len() as int)
    }
}

pub proof fn lemma_row_total_nonneg(row: Seq<usize>)
    ensures
        row_total(row) >= 0,
    decreases row.len(),
{
    if row.len() > 0 {
        lemma_row_total_nonneg(row.drop_last());
    }
}

/// A prefix of a row adds up to no more than the row.
pub proof fn lemma_row_prefix_total(row: Seq<usize>, n: int)
    requires
        0 <= n <= row.len(),
    ensures
        row_total(row.take(n)) <= row_total(row),
        n < row.len() ==> row_total(row.take(n + 1)) == row_total(row.take(n)) + row[n],
    decreases row.len() - n,
{
    if n < row.len() {
        assert(row.take(n + 1).drop_last() =~= row.take(n));
        lemma_row_prefix_total(row, n + 1);
    } else {
        assert(row.take(n) =~= row);
    }
}

/// Adding one more week to every row adds that week's column.
pub proof fn lemma_leading_weeks_step(grid: Seq<Seq<usize>>, weeks: int, days: int)
    requires
        0 <= weeks,
        0 <= days <= grid.len(),
    ensures
        leading_weeks_total(grid, weeks + 1, days) == leading_weeks_total(grid, weeks, days)
            + week_total(grid, weeks, days),
    decreases days,
{
    if days > 0 {
        lemma_leading_weeks_step(grid, weeks, days - 1);
        if weeks < grid[days - 1].len() {
            lemma_row_prefix_total(grid[days - 1], weeks);
        }
    }
}

/// Walking a grid week by week adds up the same as walking the leading weeks row by row.
pub proof fn lemma_weeks_total_by_rows(grid: Seq<Seq<usize>>, weeks: int)
    requires
        0 <= weeks,
    ensures
        weeks_total(grid, weeks) == leading_weeks_total(grid, weeks, grid.len() as int),
    decreases weeks,
{
    if weeks == 0 {
        lemma_leading_weeks_zero(grid, grid.len() as int);
    } else {
        lemma_weeks_total_by_rows(grid, weeks - 1);
        lemma_leading_weeks_step(grid, weeks - 1, grid.len() as int);
    }
}

pub proof fn lemma_leading_weeks_zero(grid: Seq<Seq<usize>>, days: int)
    requires
        0 <= days <= grid.len(),
    ensures
        leading_weeks_total(grid, 0, days) == 0,
    decreases days,
{
    if days > 0 {
        lemma_leading_weeks_zero(grid, days - 1);
        assert(grid[days - 1].take(0) =~= Seq::<usize>::empty());
    }
}

/// The leading weeks of the rows add up to no more than the whole grid.
pub proof fn lemma_leading_weeks_bound(grid: Seq<Seq<usize>>, weeks: int, days: int)
    requires
        0 <= days <= grid.len(),
        0 <= weeks,
    ensures
        leading_weeks_total(grid, weeks, days) <= grid_total(grid.take(days)),
        0 <= leading_weeks_total(grid, weeks, days),
    decreases days,
{
    if days > 0 {
        lemma_leading_weeks_bound(grid, weeks, days - 1);
        let row = grid[days - 1];
        lemma_row_prefix_total(row, min_int(weeks, row.len() as int));
        lemma_row_total_nonneg(row.take(min_int(weeks, row.len() as int)));
        assert(grid.take(days).drop_last() =~= grid.take(days - 1));
    }
}

/// In a rectangular grid the leading weeks of all rows are the whole grid.
pub proof fn lemma_leading_weeks_whole(grid: Seq<Seq<usize>>, days: int)
    requires
        0 <= days <= grid.len(),
        grid_is_rectangular(grid),
    ensures
        leading_weeks_total(grid, grid_weeks(grid), days) == grid_total(grid.take(days)),
    decreases days,
{
    if days > 0 {
        lemma_leading_weeks_whole(grid, days - 1);
        assert(grid[days - 1].take(grid_weeks(grid)) =~= grid[days - 1]);
        assert(grid.take(days).drop_last() =~= grid.take(days - 1));
    }
}

/// Week totals and column prefixes are not negative and grow with more rows.
pub proof fn lemma_week_total_grows(grid: Seq<Seq<usize>>, week: int, d1: int, d2: int)
    requires
        0 <= d1 <= d2,
    ensures
        0 <= week_total(grid, week, d1) <= week_total(grid, week, d2),
    decreases d2, d1,
{
    if d2 > d1 {
        lemma_week_total_grows(grid, week, d1, d2 - 1);
    } else if d1 > 0 {
        lemma_week_total_grows(grid, week, 0, d1);
    }
}

/// Weeks totals grow with more weeks.
pub proof fn lemma_weeks_total_grows(grid: Seq<Seq<usize>>, w1: int, w2: int)
    requires
        0 <= w1 <= w2,
    ensures
        0 <= weeks_total(grid, w1) <= weeks_total(grid, w2),
    decreases w2, w1,
{
    if w2 > w1 {
        lemma_weeks_total_grows(grid, w1, w2 - 1);
        lemma_week_total_grows(grid, w2 - 1, 0, grid.len() as int);
    } else if w1 > 0 {
        lemma_weeks_total_grows(grid, 0, w1);
    }
}

/// The sum of all the commit counts of the grid, row by row.
pub fn total_commits(commit_grid: &Vec<Vec<usize>>) -> (total: usize)
    requires
        grid_total(commit_grid.deep_view()) <= usize::MAX,
    ensures
        total == grid_total(commit_grid.deep_view()),
{
    let ghost g = commit_grid.deep_view();
    let mut total: usize = 0;
    let mut r: usize = 0;
    while r < commit_grid.len()
        invariant
            g == commit_grid.deep_view(),
            grid_total(g) <= usize::MAX,
            r <= g.len(),
            total == grid_total(g.take(r as int)),
        decreases g.len() - r,
    {
        let row = &commit_grid[r];
        let ghost before = total as int;
        assert(row@ == g[r as int]);
        proof {
            assert(g.take(r + 1).drop_last() =~= g.take(r as int));
            lemma_grid_prefix_bound(g, r + 1);
        }
        let mut c: usize = 0;
        while c < row.len()
            invariant
                row@ == g[r as int],
                c <= row.len(),
                total == before + row_total(row@.take(c as int)),
                before + row_total(row@) <= usize::MAX,
            decreases row.len() - c,
        {
            proof {
                lemma_row_prefix_total(row@, c as int);
                lemma_row_prefix_total(row@, c + 1);
            }
            total = total + row[c];
            c = c + 1;
        }
        assert(row@.take(row.len() as int) =~= row@);
        r = r + 1;
    }
    assert(g.take(g.len() as int) =~= g);
    total
}

/// The rows of a prefix add up to no more than the whole grid.
pub proof fn lemma_grid_prefix_bound(grid: Seq<Seq<usize>>, n: int)
    requires
        0 <= n <= grid.len(),
    ensures
        grid_total(grid.take(n)) <= grid_total(grid),
        n < grid.len() ==> grid_total(grid.take(n + 1)) == grid_total(grid.take(n)) + row_total(
            grid[n],
        ),
    decreases grid.len() - n,
{
    if n < grid.len() {
        assert(grid.take(n + 1).drop_last() =~= grid.take(n));
        lemma_grid_prefix_bound(grid, n + 1);
        lemma_row_total_nonneg(grid[n]);
    } else {
        assert(grid.take(n) =~= grid);
    }
}

/// The sum of all the commit counts of the grid, or `None` when it does not fit in a `usize`.
pub fn checked_total_commits(commit_grid: &Vec<Vec<usize>>) -> (total: Option<usize>)
    ensures
        total is Some <==> grid_total(commit_grid.deep_view()) <= usize::MAX,
        total matches Some(t) ==> t == grid_total(commit_grid.deep_view()),
{
    let ghost g = commit_grid.deep_view();
    let mut total: usize = 0;
    let mut r: usize = 0;
    while r < commit_grid.len()
        invariant
            g == commit_grid.deep_view(),
            r <= g.len(),
            total == grid_total(g.take(r as int)),
        decreases g.len() - r,
    {
        let row = &commit_grid[r];
        let ghost before = total as int;
        assert(row@ == g[r as int]);
        proof {
            assert(g.take(r + 1).drop_last() =~= g.take(r as int));
            lemma_grid_prefix_bound(g, r + 1);
            lemma_grid_prefix_bound(g, r as int);
        }
        let mut c: usize = 0;
        while c < row.len()
            invariant
                g == commit_grid.deep_view(),
                r < g.len(),
                row@ == g[r as int],
                c <= row.len(),
                total == before + row_total(row@.take(c as int)),
                before == grid_total(g.take(r as int)),
                grid_total(g.take(r + 1)) == before + row_total(row@),
                grid_total(g.take(r + 1)) <= grid_total(g),
            decreases row.len() - c,
        {
            proof {
                lemma_row_prefix_total(row@, c as int);
                lemma_row_prefix_total(row@, c + 1);
            }
            match total.checked_add(row[c]) {
                Some(t) => total = t,
                None => {
                    proof {
                        lemma_row_prefix_total(row@, c + 1);
                        lemma_row_prefix_total(row@.take(c + 1), 0);
                        assert(row@.take(c + 1).take(c + 1) =~= row@.take(c + 1));
                    }
                    return None;
                },
            }
            c = c + 1;
        }
        assert(row@.take(row.len() as int) =~= row@);
        r = r + 1;
    }
    assert(g.take(g.len() as int) =~= g);
    Some(total)
}

} // verus!
