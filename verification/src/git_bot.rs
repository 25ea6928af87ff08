use vstd::prelude::*;
use crate::calendar::{
    add_days, date_at, date_from_ymd, day_number, last_day_number,
    lemma_date_at, lemma_number_in_range, next_day, noon_timestamp, noon_timestamp_text,
    weekday_from_index, weekday_index, weekday_of, CalendarDate, Weekday, MAX_YEAR, MIN_YEAR,
};
use crate::grid::{
    cell_count, grid_is_rectangular, grid_total, grid_weeks, lemma_leading_weeks_bound,
    lemma_leading_weeks_whole, lemma_week_total_grows, lemma_weeks_total_by_rows,
    lemma_weeks_total_grows, total_commits, week_total, weeks_total,
};
use crate::prompt::EARLIEST_YEAR;
use crate::text::{trim_white_space, trimmed};

verus! {

/// Why commit generation could not go on.
#[derive(Clone, Copy, Debug, PartialEq, Eq, Structural)]
pub enum GitBotError {
    /// The dummy file name is empty once trimmed.
    EmptyDummyFileName,
    /// The repository path does not exist.
    PathNotFound,
    /// The repository path has no `.git` folder.
    NotAGitRepository,
    /// The year comes before 1974, the earliest year that commits may be dated in.
    YearTooEarly(i32),
    /// The year has no January 1 in the range of dates that can be represented.
    InvalidYear(i32),
    /// The search for the first Sunday ran past the last representable date.
    CalendarOverflow,
    /// The date of the commits of this cell lies past the last representable date.
    DateOverflow { week: usize, day: usize },
    /// Row `day` is too short to have a count for week `week`, which the first row has.
    RowTooShort { week: usize, day: usize },
}

/// What a look at the repository path found on disk.
#[derive(Clone, Copy, Debug, PartialEq, Eq, Structural)]
pub struct RepoProbe {
    /// The path exists.
    pub path_exists: bool,
    /// The path holds a `.git` entry.
    pub git_dir_exists: bool,
}

/// The outcome of validating a repository path from what was found there.
pub open spec fn repo_check(probe: RepoProbe) -> Option<GitBotError> {
    if !probe.path_exists {
        Some(GitBotError::PathNotFound)
    } else if !probe.git_dir_exists {
        Some(GitBotError::NotAGitRepository)
    } else {
        None
    }
}

/// Verify that the target path is a valid Git repository, from what was found at it.
pub fn validate_git_repo(probe: &RepoProbe) -> (result: Result<(), GitBotError>)
    ensures
        result is Ok <==> repo_check(*probe) is None,
        result matches Err(e) ==> repo_check(*probe) == Some(e),
{
    if !probe.path_exists {
        return Err(GitBotError::PathNotFound);
    }
    if !probe.git_dir_exists {
        return Err(GitBotError::NotAGitRepository);
    }
    Ok(())
}

/// The number of days from January 1 of `year` to the first Sunday of that year.
pub open spec fn days_to_first_sunday(year: int) -> int {
    (6 - weekday_index(day_number(year, 1, 1))) % 7
}

/// The first Sunday of `year`.
pub open spec fn first_sunday_of(year: int) -> CalendarDate {
    CalendarDate { year: year as i32, month: 1, day: (1 + days_to_first_sunday(year)) as u32 }
}

/// Calculate the first Sunday of the given year.
pub fn get_first_sunday_of_year(year: i32) -> (result: Result<CalendarDate, GitBotError>)
    ensures
        result is Ok <==> MIN_YEAR <= year <= MAX_YEAR,
        result matches Ok(d) ==> d == first_sunday_of(year as int) && d.valid() && d.weekday()
            == Weekday::Sun,
        result matches Err(e) ==> e == GitBotError::InvalidYear(year),
{
    let mut date = match date_from_ymd(year, 1, 1) {
        Some(d) => d,
        None => return Err(GitBotError::InvalidYear(year)),
    };
    let ghost first = day_number(year as int, 1, 1);
    while weekday_of(&date) != Weekday::Sun
        invariant
            date.valid(),
            date.year == year,
            date.month == 1,
            1 <= date.day,
            date.day - 1 <= days_to_first_sunday(year as int),
            first == day_number(year as int, 1, 1),
            date.number() == first + date.day - 1,
        decreases days_to_first_sunday(year as int) + 1 - date.day,
    {
        assert(date.day - 1 != days_to_first_sunday(year as int));
        date = match next_day(&date) {
            Some(n) => n,
            None => return Err(GitBotError::CalendarOverflow),
        };
    }
    Ok(date)
}

/// Parameters required to work out commit generation.
pub struct CommitConfig {
    pub repo_path: String,
    pub dummy_file: String,
    pub year: i32,
    pub dry_run: bool,
}

/// The commits to make on one day of the grid.
pub struct CellCommits {
    /// The column of the cell.
    pub week: usize,
    /// The row of the cell: 0 is Sunday.
    pub day: usize,
    /// How many commits to make on that day.
    pub count: usize,
    /// The number of the first of these commits; they are numbered on from 1.
    pub first_number: usize,
    /// The commit date, as `YYYY-MM-DDT12:00:00`.
    pub timestamp: String,
}

/// What the commits of one day are, in mathematical terms.
pub struct PlannedCell {
    pub week: int,
    pub day: int,
    pub count: int,
    pub first_number: int,
    pub timestamp: Seq<char>,
}

impl View for CellCommits {
    type V = PlannedCell;

    open spec fn view(&self) -> PlannedCell {
        PlannedCell {
            week: self.week as int,
            day: self.day as int,
            count: self.count as int,
            first_number: self.first_number as int,
            timestamp: self.timestamp@,
        }
    }
}

/// Everything that commit generation does, worked out in advance.
pub struct CommitPlan {
    /// The dummy file name, trimmed.
    pub dummy_file: String,
    /// The sum of all the counts of the grid.
    pub total_commits: usize,
    /// The days with commits, week by week and in each week from Sunday on.
    pub cells: Vec<CellCommits>,
    /// Set when the walk stopped: at a cell whose date lies past the representable range, or
    /// at a row too short to have the week being walked.
    pub stopped: Option<GitBotError>,
}

/// The day on which the commits of cell `(week, day)` are made: `week` weeks and `day` days
/// after `start`.
pub open spec fn commit_date(start: CalendarDate, week: int, day: int) -> CalendarDate {
    date_at(start.number() + 7 * week + day)
}

/// Cell `(week, day)` has commits whose date lies past the last representable date.
pub open spec fn cell_overflows(grid: Seq<Seq<usize>>, start: CalendarDate, week: int, day: int) -> bool {
    grid[day][week] != 0 && start.number() + 7 * week + day > last_day_number()
}

/// Row `day` has no count for week `week`.
pub open spec fn cell_missing(grid: Seq<Seq<usize>>, week: int, day: int) -> bool {
    week >= grid[day].len()
}

/// The walk cannot go past cell `(week, day)`: the row has no count there, or the count's
/// date lies past the last representable date.
pub open spec fn cell_blocks(grid: Seq<Seq<usize>>, start: CalendarDate, week: int, day: int) -> bool {
    cell_missing(grid, week, day) || cell_overflows(grid, start, week, day)
}

/// The sum of the counts of `cells`.
pub open spec fn commits_in(cells: Seq<PlannedCell>) -> int
    decreases cells.len(),
{
    if cells.len() == 0 {
        0
    } else {
        commits_in(cells.drop_last()) + cells.last().count
    }
}

/// The cells with commits that come before cell `(week, day)`, walking the grid week by week
/// and, in each week, row by row.
pub open spec fn planned_before(
    grid: Seq<Seq<usize>>,
    start: CalendarDate,
    week: nat,
    day: nat,
) -> Seq<PlannedCell>
    decreases week, day,
{
    if day > 0 {
        let prev = planned_before(grid, start, week, (day - 1) as nat);
        let d = day - 1;
        let count = grid[d][week as int];
        if count == 0 {
            prev
        } else {
            prev.push(
                PlannedCell {
                    week: week as int,
                    day: d,
                    count: count as int,
                    first_number: commits_in(prev) + 1,
                    timestamp: noon_timestamp_text(commit_date(start, week as int, d)),
                },
            )
        }
    } else if week > 0 {
        planned_before(grid, start, (week - 1) as nat, grid.len())
    } else {
        seq![]
    }
}

/// No cell before `(week, day)` blocks the walk.
pub open spec fn no_block_before(
    grid: Seq<Seq<usize>>,
    start: CalendarDate,
    week: int,
    day: int,
) -> bool {
    forall|w: int, d: int|
        0 <= w && 0 <= d < grid.len() && (w < week || (w == week && d < day))
            ==> !#[trigger] cell_blocks(grid, start, w, d)
}

/// Every row has a count for every week before `(week, day)`.
pub open spec fn no_missing_before(grid: Seq<Seq<usize>>, week: int, day: int) -> bool {
    forall|w: int, d: int|
        0 <= w && 0 <= d < grid.len() && (w < week || (w == week && d < day))
            ==> !#[trigger] cell_missing(grid, w, d)
}

/// Why commit generation is refused before any commit, if it is.
pub open spec fn commit_preflight(
    dummy_file: Seq<char>,
    year: i32,
    dry_run: bool,
    probe: RepoProbe,
) -> Option<GitBotError> {
    if trimmed(dummy_file).len() == 0 {
        Some(GitBotError::EmptyDummyFileName)
    } else if !dry_run && repo_check(probe) is Some {
        repo_check(probe)
    } else if year < EARLIEST_YEAR {
        Some(GitBotError::YearTooEarly(year))
    } else if !(MIN_YEAR <= year <= MAX_YEAR) {
        Some(GitBotError::InvalidYear(year))
    } else {
        None
    }
}

/// `plan` is the plan of commits for `grid` from the Sunday `start` on.
pub open spec fn plan_matches(
    plan: CommitPlan,
    grid: Seq<Seq<usize>>,
    start: CalendarDate,
    dummy_file: Seq<char>,
) -> bool {
    let weeks = grid_weeks(grid);
    &&& plan.dummy_file@ == trimmed(dummy_file)
    &&& plan.total_commits == grid_total(grid)
    &&& forall|i: int|
        0 <= i < plan.cells@.len() ==> commit_date(
            start,
            (#[trigger] plan.cells@[i]).week as int,
            plan.cells@[i].day as int,
        ).valid()
    &&& if grid_total(grid) == 0 {
        plan.cells@.len() == 0 && plan.stopped is None
    } else {
        match plan.stopped {
            None => {
                &&& no_block_before(grid, start, weeks, 0)
                &&& plan.cells@.map_values(|c: CellCommits| c@) == planned_before(
                    grid,
                    start,
                    weeks as nat,
                    0,
                )
            },
            Some(GitBotError::DateOverflow { week, day }) => {
                &&& week < weeks
                &&& day < grid.len()
                &&& !cell_missing(grid, week as int, day as int)
                &&& cell_overflows(grid, start, week as int, day as int)
                &&& no_block_before(grid, start, week as int, day as int)
                &&& plan.cells@.map_values(|c: CellCommits| c@) == planned_before(
                    grid,
                    start,
                    week as nat,
                    day as nat,
                )
            },
            Some(GitBotError::RowTooShort { week, day }) => {
                &&& week < weeks
                &&& day < grid.len()
                &&& cell_missing(grid, week as int, day as int)
                &&& no_block_before(grid, start, week as int, day as int)
                &&& plan.cells@.map_values(|c: CellCommits| c@) == planned_before(
                    grid,
                    start,
                    week as nat,
                    day as nat,
                )
            },
            Some(_) => false,
        }
    }
}

/// The sum of the counts of the cells before `(week, day)`.
proof fn lemma_planned_commits(grid: Seq<Seq<usize>>, start: CalendarDate, week: nat, day: nat)
    requires
        day <= grid.len(),
        no_missing_before(grid, week as int, day as int),
    ensures
        commits_in(planned_before(grid, start, week, day)) == weeks_total(grid, week as int)
            + week_total(grid, week as int, day as int),
    decreases week, day,
{
    if day > 0 {
        lemma_planned_commits(grid, start, week, (day - 1) as nat);
        let prev = planned_before(grid, start, week, (day - 1) as nat);
        let count = grid[day - 1][week as int];
        assert(!cell_missing(grid, week as int, day - 1));
        assert(cell_count(grid, day - 1, week as int) == count);
        if count != 0 {
            let next = planned_before(grid, start, week, day);
            assert(next.drop_last() == prev);
        }
    } else if week > 0 {
        lemma_planned_commits(grid, start, (week - 1) as nat, grid.len());
    }
}

/// The date of cell `(week, day)`, if it lies in the representable range.
fn cell_date(start: &CalendarDate, week: usize, day: usize) -> (date: Option<CalendarDate>)
    requires
        start.valid(),
    ensures
        date is Some <==> start.number() + 7 * week + day <= last_day_number(),
        date matches Some(d) ==> d.valid() && d.number() == start.number() + 7 * week + day,
{
    proof {
        lemma_number_in_range(*start);
    }
    if week > 0x7fff_fff0 / 7 || day > 0x7fff_fff0 {
        return None;
    }
    let by_weeks = match add_days(start, (week * 7) as i64) {
        Some(d) => d,
        None => return None,
    };
    add_days(&by_weeks, day as i64)
}

/// The checks that come before any commit: the dummy file name, then the repository unless
/// it is a dry run, then the year, which must be 1974 or later and representable. `probe` is what was found at `config.repo_path`.
pub fn check_commit_preflight(config: &CommitConfig, probe: &RepoProbe) -> (refusal: Option<
    GitBotError,
>)
    ensures
        refusal == commit_preflight(config.dummy_file@, config.year, config.dry_run, *probe),
{
    if trim_white_space(config.dummy_file.as_str()).is_empty() {
        return Some(GitBotError::EmptyDummyFileName);
    }
    if !config.dry_run {
        match validate_git_repo(probe) {
            Ok(()) => {},
            Err(e) => return Some(e),
        }
    }
    if config.year < EARLIEST_YEAR {
        return Some(GitBotError::YearTooEarly(config.year));
    }
    match get_first_sunday_of_year(config.year) {
        Ok(_) => None,
        Err(e) => Some(e),
    }
}

/// The walk behind `generate_commits`.
fn plan_commits(
    commit_grid: &Vec<Vec<usize>>,
    config: &CommitConfig,
    probe: &RepoProbe,
) -> (result: Result<CommitPlan, GitBotError>)
    requires
        commit_preflight(config.dummy_file@, config.year, config.dry_run, *probe) is None
            ==> grid_total(commit_grid.deep_view()) <= usize::MAX,
    ensures
        match commit_preflight(config.dummy_file@, config.year, config.dry_run, *probe) {
            Some(e) => result == Err::<CommitPlan, GitBotError>(e),
            None => result matches Ok(plan) && plan_matches(
                plan,
                commit_grid.deep_view(),
                first_sunday_of(config.year as int),
                config.dummy_file@,
            ),
        },
{
    let ghost grid = commit_grid.deep_view();
    let sanitized_dummy = trim_white_space(config.dummy_file.as_str());
    if sanitized_dummy.is_empty() {
        return Err(GitBotError::EmptyDummyFileName);
    }
    if !config.dry_run {
        match validate_git_repo(probe) {
            Ok(()) => {},
            Err(e) => return Err(e),
        }
    }
    if config.year < EARLIEST_YEAR {
        return Err(GitBotError::YearTooEarly(config.year));
    }
    let start = match get_first_sunday_of_year(config.year) {
        Ok(d) => d,
        Err(e) => return Err(e),
    };
    let dummy_file = sanitized_dummy.to_owned();
    let total = total_commits(commit_grid);
    let mut cells: Vec<CellCommits> = Vec::new();
    if total == 0 {
        return Ok(CommitPlan { dummy_file, total_commits: total, cells, stopped: None });
    }

    let num_rows = commit_grid.len();
    let num_cols = if num_rows > 0 {
        commit_grid[0].len()
    } else {
        0
    };
    assert(num_cols == grid_weeks(grid));
    proof {
        lemma_weeks_total_by_rows(grid, num_cols as int);
        lemma_leading_weeks_bound(grid, num_cols as int, num_rows as int);
        assert(grid.take(num_rows as int) =~= grid);
    }

    let mut commit_counter: usize = 0;
    let mut week: usize = 0;
    while week < num_cols
        invariant
            grid == commit_grid.deep_view(),
            grid_total(grid) <= usize::MAX,
            grid_total(grid) != 0,
            num_rows == grid.len(),
            num_cols == grid_weeks(grid),
            weeks_total(grid, num_cols as int) <= grid_total(grid),
            start == first_sunday_of(config.year as int),
            start.valid(),
            week <= num_cols,
            cells@.map_values(|c: CellCommits| c@) == planned_before(grid, start, week as nat, 0),
            commit_counter == weeks_total(grid, week as int),
            no_block_before(grid, start, week as int, 0),
            forall|i: int|
                0 <= i < cells@.len() ==> commit_date(
                    start,
                    (#[trigger] cells@[i]).week as int,
                    cells@[i].day as int,
                ).valid(),
            dummy_file@ == trimmed(config.dummy_file@),
            total == grid_total(grid),
            commit_preflight(config.dummy_file@, config.year, config.dry_run, *probe) is None,
        decreases num_cols - week,
    {
        let mut day: usize = 0;
        proof {
            lemma_weeks_total_grows(grid, week + 1, num_cols as int);
        }
        while day < num_rows
            invariant
                grid == commit_grid.deep_view(),
                grid_total(grid) != 0,
                num_rows == grid.len(),
                num_cols == grid_weeks(grid),
                weeks_total(grid, week + 1) <= usize::MAX,
                start == first_sunday_of(config.year as int),
                start.valid(),
                week < num_cols,
                day <= num_rows,
                cells@.map_values(|c: CellCommits| c@) == planned_before(
                    grid,
                    start,
                    week as nat,
                    day as nat,
                ),
                commit_counter == weeks_total(grid, week as int) + week_total(
                    grid,
                    week as int,
                    day as int,
                ),
                no_block_before(grid, start, week as int, day as int),
                forall|i: int|
                    0 <= i < cells@.len() ==> commit_date(
                        start,
                        (#[trigger] cells@[i]).week as int,
                        cells@[i].day as int,
                    ).valid(),
                dummy_file@ == trimmed(config.dummy_file@),
                total == grid_total(grid),
                commit_preflight(config.dummy_file@, config.year, config.dry_run, *probe) is None,
            decreases num_rows - day,
        {
            let ghost prev = cells@.map_values(|c: CellCommits| c@);
            assert(commit_grid[day as int]@ == grid[day as int]);
            if commit_grid[day].len() <= week {
                return Ok(
                    CommitPlan {
                        dummy_file,
                        total_commits: total,
                        cells,
                        stopped: Some(GitBotError::RowTooShort { week, day }),
                    },
                );
            }
            let num_commits = commit_grid[day][week];
            assert(num_commits == grid[day as int][week as int]);
            assert(cell_count(grid, day as int, week as int) == num_commits);
            if num_commits != 0 {
                let date = match cell_date(&start, week, day) {
                    Some(d) => d,
                    None => {
                        return Ok(
                            CommitPlan {
                                dummy_file,
                                total_commits: total,
                                cells,
                                stopped: Some(GitBotError::DateOverflow { week, day }),
                            },
                        );
                    },
                };
                proof {
                    lemma_date_at(date);
                    lemma_week_total_grows(grid, week as int, day + 1, num_rows as int);
                }
                let timestamp = noon_timestamp(&date);
                let first_number = commit_counter + 1;
                cells.push(
                    CellCommits { week, day, count: num_commits, first_number, timestamp },
                );
                commit_counter = commit_counter + num_commits;
                proof {
                    lemma_no_missing(grid, start, week as int, day as int);
                    lemma_planned_commits(grid, start, week as nat, day as nat);
                    assert(cells@.map_values(|c: CellCommits| c@) =~= prev.push(
                        cells@.last()@,
                    ));
                }
            }
            day = day + 1;
        }
        week = week + 1;
    }
    Ok(CommitPlan { dummy_file, total_commits: total, cells, stopped: None })
}

/// Work out the backdated commits for the 7x49 commit grid: the checks that come before any
/// commit (a blank dummy file name, the repository unless it is a dry run, a year before 1974
/// or past the representable dates), and then, week by week and day by day, how many commits
/// each day gets, their numbers and their date. `probe` is what was found at `config.repo_path`. The grid is only
/// read once the checks pass, and only walked when it has commits; the walk stops at a row
/// too short for the week being walked.
pub fn generate_commits(
    commit_grid: &Vec<Vec<usize>>,
    config: &CommitConfig,
    probe: &RepoProbe,
) -> (result: Result<CommitPlan, GitBotError>)
    requires
        commit_preflight(config.dummy_file@, config.year, config.dry_run, *probe) is None
            ==> grid_total(commit_grid.deep_view()) <= usize::MAX,
    ensures
        match commit_preflight(config.dummy_file@, config.year, config.dry_run, *probe) {
            Some(e) => result == Err::<CommitPlan, GitBotError>(e),
            None => result matches Ok(plan) && plan_matches(
                plan,
                commit_grid.deep_view(),
                first_sunday_of(config.year as int),
                config.dummy_file@,
            ),
        },
        result matches Ok(plan) ==> forall|i: int|
            0 <= i < plan.cells@.len() ==> (#[trigger] plan.cells@[i]).timestamp@
                == noon_timestamp_text(
                date_at(
                    first_sunday_of(config.year as int).number() + 7 * plan.cells@[i].week
                        + plan.cells@[i].day,
                ),
            ) && plan.cells@[i].count == commit_grid@[plan.cells@[i].day as int]@[plan.cells@[i].week as int]
                && plan.cells@[i].count != 0,
{
    let result = plan_commits(commit_grid, config, probe);
    proof {
        let grid = commit_grid.deep_view();
        lemma_grid_cells(commit_grid, grid);
        if let Ok(plan) = &result {
            if grid_total(grid) != 0 {
                let start = first_sunday_of(config.year as int);
                match plan.stopped {
                    Some(GitBotError::DateOverflow { week, day }) => {
                        lemma_cells_dated(plan.cells@, grid, start, week as nat, day as nat);
                    },
                    Some(GitBotError::RowTooShort { week, day }) => {
                        lemma_cells_dated(plan.cells@, grid, start, week as nat, day as nat);
                    },
                    _ => {
                        lemma_cells_dated(plan.cells@, grid, start, grid_weeks(grid) as nat, 0);
                    },
                }
            }
        }
    }
    result
}

/// The grid's rows hold the counts of its view.
proof fn lemma_grid_cells(commit_grid: &Vec<Vec<usize>>, grid: Seq<Seq<usize>>)
    requires
        grid == commit_grid.deep_view(),
    ensures
        forall|d: int| 0 <= d < grid.len() ==> #[trigger] commit_grid@[d]@ == grid[d],
{
    assert forall|d: int| 0 <= d < grid.len() implies #[trigger] commit_grid@[d]@ == grid[d] by {
        assert(commit_grid@[d]@ =~= grid[d]);
    }
}

/// Cells that follow the plan are dated as the plan dates them.
proof fn lemma_cells_dated(
    cells: Seq<CellCommits>,
    grid: Seq<Seq<usize>>,
    start: CalendarDate,
    week: nat,
    day: nat,
)
    requires
        cells.map_values(|c: CellCommits| c@) == planned_before(grid, start, week, day),
        day <= grid.len(),
    ensures
        forall|i: int|
            0 <= i < cells.len() ==> (#[trigger] cells[i]).timestamp@ == noon_timestamp_text(
                date_at(start.number() + 7 * cells[i].week + cells[i].day),
            ) && cells[i].count == grid[cells[i].day as int][cells[i].week as int]
                && cells[i].count != 0 && cells[i].day < grid.len(),
{
    law_planned_cells(grid, start, week, day);
    assert forall|i: int| 0 <= i < cells.len() implies (#[trigger] cells[i]).timestamp@
        == noon_timestamp_text(date_at(start.number() + 7 * cells[i].week + cells[i].day))
        && cells[i].count == grid[cells[i].day as int][cells[i].week as int] && cells[i].count
        != 0 && cells[i].day < grid.len() by {
        assert(cells.map_values(|c: CellCommits| c@)[i] == cells[i]@);
    }
}

/// Where no cell blocks the walk, no row lacks a count.
proof fn lemma_no_missing(grid: Seq<Seq<usize>>, start: CalendarDate, week: int, day: int)
    requires
        no_block_before(grid, start, week, day),
    ensures
        no_missing_before(grid, week, day),
{
    assert forall|w: int, d: int|
        0 <= w && 0 <= d < grid.len() && (w < week || (w == week && d < day)) implies !#[trigger] cell_missing(
        grid,
        w,
        d,
    ) by {
        assert(!cell_blocks(grid, start, w, d));
    }
}

/// Every planned cell is a cell of the grid with commits, before the point the walk reached,
/// and its commits are dated `7 * week + day` days after the start, at noon.
pub proof fn law_planned_cells(grid: Seq<Seq<usize>>, start: CalendarDate, week: nat, day: nat)
    requires
        day <= grid.len(),
    ensures
        forall|i: int|
            0 <= i < planned_before(grid, start, week, day).len() ==> {
                let c = #[trigger] planned_before(grid, start, week, day)[i];
                &&& c.timestamp == noon_timestamp_text(date_at(start.number() + 7 * c.week + c.day))
                &&& c.count == grid[c.day][c.week]
                &&& c.count != 0
                &&& 0 <= c.week
                &&& 0 <= c.day < grid.len()
                &&& (c.week < week || (c.week == week && c.day < day))
            },
    decreases week, day,
{
    if day > 0 {
        law_planned_cells(grid, start, week, (day - 1) as nat);
        let prev = planned_before(grid, start, week, (day - 1) as nat);
        let cur = planned_before(grid, start, week, day);
        let d = day - 1;
        if grid[d][week as int] != 0 {
            assert(cur.len() == prev.len() + 1);
            assert forall|i: int| 0 <= i < prev.len() implies #[trigger] cur[i] == prev[i] by {}
            let c = cur[prev.len() as int];
            assert forall|i: int| 0 <= i < cur.len() implies {
                let e = #[trigger] cur[i];
                &&& e.timestamp == noon_timestamp_text(date_at(start.number() + 7 * e.week + e.day))
                &&& e.count == grid[e.day][e.week]
                &&& e.count != 0
                &&& 0 <= e.week
                &&& 0 <= e.day < grid.len()
                &&& (e.week < week || (e.week == week && e.day < day))
            } by {
                if i < prev.len() {
                    assert(cur[i] == prev[i]);
                }
            }
            assert(c.week == week && c.day == d);
            assert(c.timestamp == noon_timestamp_text(commit_date(start, week as int, d)));
        } else {
            assert(cur == prev);
        }
    } else if week > 0 {
        law_planned_cells(grid, start, (week - 1) as nat, grid.len());
        assert(planned_before(grid, start, week, day) == planned_before(
            grid,
            start,
            (week - 1) as nat,
            grid.len(),
        ));
    }
}

/// The day of the week of row `day` of the grid: row 0 is Sunday, row 6 is Saturday.
pub open spec fn row_weekday(day: int) -> Weekday {
    weekday_from_index((6 + day) % 7)
}

/// The first Sunday of a year is a Sunday in the first week of January, and no day of
/// January before it is a Sunday.
pub proof fn law_first_sunday_is_first(year: int)
    requires
        MIN_YEAR <= year <= MAX_YEAR,
    ensures
        first_sunday_of(year).valid(),
        first_sunday_of(year).weekday() == Weekday::Sun,
        first_sunday_of(year).month == 1,
        1 <= first_sunday_of(year).day <= 7,
        forall|k: int|
            1 <= k < first_sunday_of(year).day ==> #[trigger] weekday_from_index(
                weekday_index(day_number(year, 1, k)),
            ) != Weekday::Sun,
{
    let n1 = day_number(year, 1, 1);
    let w = n1 % 7;
    let s = days_to_first_sunday(year);
    assert(0 <= w < 7);
    assert(s == 6 - w);
    let d = first_sunday_of(year);
    assert(d.number() == n1 + s);
    assert((n1 + s) % 7 == 6) by (nonlinear_arith)
        requires
            w == n1 % 7,
            s == 6 - w,
    ;
    assert forall|k: int| 1 <= k < d.day implies #[trigger] weekday_from_index(
        weekday_index(day_number(year, 1, k)),
    ) != Weekday::Sun by {
        assert(day_number(year, 1, k) == n1 + k - 1);
        assert((n1 + k - 1) % 7 == w + k - 1) by (nonlinear_arith)
            requires
                w == n1 % 7,
                0 <= k - 1 < 6 - w,
        ;
    }
}

/// The commits of row `day` fall on that row's day of the week, in every week: the grid's
/// rows are the days of the week from Sunday on, as in the contribution calendar.
pub proof fn law_commit_day_matches_row(year: int, week: int, day: int, date: CalendarDate)
    requires
        MIN_YEAR <= year <= MAX_YEAR,
        0 <= week,
        0 <= day < 7,
        date.valid(),
        date.number() == first_sunday_of(year).number() + 7 * week + day,
    ensures
        date.weekday() == row_weekday(day),
{
    law_first_sunday_is_first(year);
    let n0 = first_sunday_of(year).number();
    assert(n0 % 7 == 6);
    let n = date.number();
    assert(n % 7 == (6 + day) % 7) by (nonlinear_arith)
        requires
            n0 % 7 == 6,
            n == n0 + 7 * week + day,
            0 <= day < 7,
    ;
}

/// A plan that did not stop makes as many commits as the grid counts, when every row of the
/// grid has the same length.
pub proof fn law_plan_makes_all_commits(grid: Seq<Seq<usize>>, start: CalendarDate)
    requires
        grid_is_rectangular(grid),
    ensures
        commits_in(planned_before(grid, start, grid_weeks(grid) as nat, 0)) == grid_total(grid),
{
    assert forall|w: int, d: int|
        0 <= w && 0 <= d < grid.len() && (w < grid_weeks(grid) || (w == grid_weeks(grid) && d
            < 0)) implies !#[trigger] cell_missing(grid, w, d) by {
        assert(grid[d].len() == grid_weeks(grid));
    }
    lemma_planned_commits(grid, start, grid_weeks(grid) as nat, 0);
    lemma_weeks_total_by_rows(grid, grid_weeks(grid));
    lemma_leading_weeks_whole(grid, grid.len() as int);
    assert(grid.take(grid.len() as int) =~= grid);
}

/// A dry run never looks at the repository: what was found there does not change the outcome.
pub proof fn law_dry_run_ignores_repo(dummy_file: Seq<char>, year: i32, a: RepoProbe, b: RepoProbe)
    ensures
        commit_preflight(dummy_file, year, true, a) == commit_preflight(dummy_file, year, true, b),
{
}

} // verus!
