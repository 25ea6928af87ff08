use chrono::{Datelike, NaiveDate, Weekday};
use gitxel_art::calendar::{CalendarDate, MAX_YEAR, MIN_YEAR};
use gitxel_art::git_bot::{
    generate_commits, get_first_sunday_of_year, validate_git_repo, CommitConfig, CommitPlan,
    GitBotError, RepoProbe,
};

fn naive(d: CalendarDate) -> NaiveDate {
    NaiveDate::from_ymd_opt(d.year, d.month, d.day).unwrap()
}

fn config(dummy: &str, year: i32, dry_run: bool) -> CommitConfig {
    CommitConfig {
        repo_path: "/tmp/repo".to_string(),
        dummy_file: dummy.to_string(),
        year,
        dry_run,
    }
}

const GOOD_REPO: RepoProbe = RepoProbe { path_exists: true, git_dir_exists: true };
const NO_REPO: RepoProbe = RepoProbe { path_exists: false, git_dir_exists: false };

#[test]
fn test_first_sunday() {
    // 2024: Jan 1 was a Monday, first Sunday was Jan 7
    let sunday_2024 = get_first_sunday_of_year(2024).unwrap();
    assert_eq!(naive(sunday_2024), NaiveDate::from_ymd_opt(2024, 1, 7).unwrap());
    assert_eq!(naive(sunday_2024).weekday(), Weekday::Sun);

    // 2023: Jan 1 was a Sunday!
    let sunday_2023 = get_first_sunday_of_year(2023).unwrap();
    assert_eq!(naive(sunday_2023), NaiveDate::from_ymd_opt(2023, 1, 1).unwrap());
    assert_eq!(naive(sunday_2023).weekday(), Weekday::Sun);
}

#[test]
fn first_sunday_is_first_in_many_years() {
    for year in (-3000..3000).chain([MIN_YEAR, MIN_YEAR + 1, MAX_YEAR - 1, MAX_YEAR]) {
        let d = get_first_sunday_of_year(year).unwrap();
        assert_eq!(d.year, year);
        assert_eq!(d.month, 1);
        assert!((1..=7).contains(&d.day));
        assert_eq!(naive(d).weekday(), Weekday::Sun);
        for k in 1..d.day {
            assert_ne!(NaiveDate::from_ymd_opt(year, 1, k).unwrap().weekday(), Weekday::Sun);
        }
    }
}

#[test]
fn first_sunday_of_unrepresentable_year_is_refused() {
    assert_eq!(get_first_sunday_of_year(MAX_YEAR + 1), Err(GitBotError::InvalidYear(MAX_YEAR + 1)));
    assert_eq!(get_first_sunday_of_year(MIN_YEAR - 1), Err(GitBotError::InvalidYear(MIN_YEAR - 1)));
    assert_eq!(get_first_sunday_of_year(i32::MAX), Err(GitBotError::InvalidYear(i32::MAX)));
}

#[test]
fn repo_validation() {
    assert_eq!(validate_git_repo(&GOOD_REPO), Ok(()));
    assert_eq!(validate_git_repo(&NO_REPO), Err(GitBotError::PathNotFound));
    assert_eq!(
        validate_git_repo(&RepoProbe { path_exists: true, git_dir_exists: false }),
        Err(GitBotError::NotAGitRepository)
    );
}

fn plan(grid: &Vec<Vec<usize>>, cfg: &CommitConfig, probe: &RepoProbe) -> CommitPlan {
    match generate_commits(grid, cfg, probe) {
        Ok(p) => p,
        Err(e) => panic!("unexpected error {:?}", e),
    }
}

#[test]
fn empty_dummy_file_name_is_refused() {
    let grid = vec![vec![1usize]];
    assert!(matches!(
        generate_commits(&grid, &config("", 2024, true), &GOOD_REPO),
        Err(GitBotError::EmptyDummyFileName)
    ));
    assert!(matches!(
        generate_commits(&grid, &config(" \t\n\u{3000}", 2024, false), &NO_REPO),
        Err(GitBotError::EmptyDummyFileName)
    ));
}

#[test]
fn repository_is_checked_unless_dry_run() {
    let grid = vec![vec![1usize]];
    assert!(matches!(
        generate_commits(&grid, &config("dummy.txt", 2024, false), &NO_REPO),
        Err(GitBotError::PathNotFound)
    ));
    assert!(matches!(
        generate_commits(
            &grid,
            &config("dummy.txt", 2024, false),
            &RepoProbe { path_exists: true, git_dir_exists: false }
        ),
        Err(GitBotError::NotAGitRepository)
    ));
    let p = plan(&grid, &config("dummy.txt", 2024, true), &NO_REPO);
    assert_eq!(p.total_commits, 1);
}

#[test]
fn invalid_year_is_refused() {
    let grid = vec![vec![1usize]];
    assert!(matches!(
        generate_commits(&grid, &config("dummy.txt", 300_000, true), &GOOD_REPO),
        Err(GitBotError::InvalidYear(300_000))
    ));
}

#[test]
fn dummy_file_name_is_trimmed() {
    let grid = vec![vec![0usize]];
    let p = plan(&grid, &config("  notes.txt \n", 2024, false), &GOOD_REPO);
    assert_eq!(p.dummy_file, "notes.txt");
}

#[test]
fn blank_grid_plans_no_commits() {
    let grid = vec![vec![0usize; 49]; 7];
    let p = plan(&grid, &config("dummy.txt", 2024, false), &GOOD_REPO);
    assert_eq!(p.total_commits, 0);
    assert!(p.cells.is_empty());
    assert_eq!(p.stopped, None);
}

#[test]
fn commits_are_planned_week_by_week() {
    // rows are days (Sunday first), columns are weeks
    let mut grid = vec![vec![0usize; 3]; 7];
    grid[0][0] = 2; // Sunday of week 0
    grid[1][0] = 1; // Monday of week 0
    grid[0][1] = 4; // Sunday of week 1
    grid[6][2] = 8; // Saturday of week 2
    let p = plan(&grid, &config("dummy.txt", 2024, true), &NO_REPO);
    assert_eq!(p.total_commits, 15);
    assert_eq!(p.stopped, None);
    let seen: Vec<(usize, usize, usize, usize, &str)> = p
        .cells
        .iter()
        .map(|c| (c.week, c.day, c.count, c.first_number, c.timestamp.as_str()))
        .collect();
    assert_eq!(
        seen,
        vec![
            (0, 0, 2, 1, "2024-01-07T12:00:00"),
            (0, 1, 1, 3, "2024-01-08T12:00:00"),
            (1, 0, 4, 4, "2024-01-14T12:00:00"),
            (2, 6, 8, 8, "2024-01-27T12:00:00"),
        ]
    );
}

#[test]
fn commit_day_matches_row() {
    let grid = vec![vec![1usize; 49]; 7];
    let p = plan(&grid, &config("dummy.txt", 2021, true), &NO_REPO);
    assert_eq!(p.cells.len(), 343);
    let days = [
        Weekday::Sun,
        Weekday::Mon,
        Weekday::Tue,
        Weekday::Wed,
        Weekday::Thu,
        Weekday::Fri,
        Weekday::Sat,
    ];
    let mut expected_number = 1;
    for c in &p.cells {
        let date = NaiveDate::parse_from_str(&c.timestamp[..10], "%Y-%m-%d").unwrap();
        assert_eq!(date.weekday(), days[c.day]);
        assert_eq!(c.first_number, expected_number);
        expected_number += c.count;
    }
    assert_eq!(expected_number - 1, p.total_commits);
}

#[test]
fn years_outside_four_digits_are_signed() {
    let grid = vec![vec![1usize]];
    let p = plan(&grid, &config("dummy.txt", 10_000, true), &NO_REPO);
    let first = naive(get_first_sunday_of_year(10_000).unwrap());
    assert_eq!(p.cells[0].timestamp, format!("+10000-01-{:02}T12:00:00", first.day()));
    let p = plan(&grid, &config("dummy.txt", 1974, true), &NO_REPO);
    let first = naive(get_first_sunday_of_year(1974).unwrap());
    assert_eq!(p.cells[0].timestamp, format!("1974-01-{:02}T12:00:00", first.day()));
}

#[test]
fn dates_past_the_last_year_stop_the_plan() {
    let grid = vec![vec![1usize; 60]];
    let p = plan(&grid, &config("dummy.txt", MAX_YEAR, true), &NO_REPO);
    let start = naive(get_first_sunday_of_year(MAX_YEAR).unwrap());
    let last = NaiveDate::from_ymd_opt(MAX_YEAR, 12, 31).unwrap();
    let weeks_fitting = ((last - start).num_days() / 7 + 1) as usize;
    assert_eq!(p.cells.len(), weeks_fitting);
    assert_eq!(p.stopped, Some(GitBotError::DateOverflow { week: weeks_fitting, day: 0 }));
    assert_eq!(p.total_commits, 60);
}

#[test]
fn longer_rows_are_counted_but_not_walked() {
    let grid = vec![vec![1usize], vec![1usize, 5]];
    let p = plan(&grid, &config("dummy.txt", 2024, true), &NO_REPO);
    assert_eq!(p.total_commits, 7);
    assert_eq!(p.cells.len(), 2);
}

use gitxel_art::git_bot::check_commit_preflight;

#[test]
fn refusals_come_before_reading_the_grid() {
    let ragged = vec![vec![1usize, 1], vec![]];
    assert!(matches!(
        generate_commits(&ragged, &config(" ", 2024, true), &GOOD_REPO),
        Err(GitBotError::EmptyDummyFileName)
    ));
    assert!(matches!(
        generate_commits(&ragged, &config("d", 2024, false), &NO_REPO),
        Err(GitBotError::PathNotFound)
    ));
    assert!(matches!(
        generate_commits(&ragged, &config("d", 400_000, true), &NO_REPO),
        Err(GitBotError::InvalidYear(400_000))
    ));
}

#[test]
fn preflight_checks() {
    assert_eq!(check_commit_preflight(&config("", 2024, true), &GOOD_REPO), Some(GitBotError::EmptyDummyFileName));
    assert_eq!(check_commit_preflight(&config("d", 2024, false), &NO_REPO), Some(GitBotError::PathNotFound));
    assert_eq!(check_commit_preflight(&config("d", 2024, true), &NO_REPO), None);
    assert_eq!(
        check_commit_preflight(&config("d", MAX_YEAR + 1, false), &GOOD_REPO),
        Some(GitBotError::InvalidYear(MAX_YEAR + 1))
    );
    assert_eq!(check_commit_preflight(&config("d", 2024, false), &GOOD_REPO), None);
}

#[test]
fn all_zero_ragged_grid_plans_nothing() {
    let grid = vec![vec![0usize, 0, 0], vec![0usize]];
    let p = plan(&grid, &config("dummy.txt", 2024, true), &NO_REPO);
    assert_eq!(p.total_commits, 0);
    assert!(p.cells.is_empty());
    assert_eq!(p.stopped, None);
}

#[test]
fn short_row_stops_the_walk() {
    let grid = vec![vec![1usize, 1], vec![1usize]];
    let p = plan(&grid, &config("dummy.txt", 2024, true), &NO_REPO);
    assert_eq!(p.total_commits, 3);
    let seen: Vec<(usize, usize)> = p.cells.iter().map(|c| (c.week, c.day)).collect();
    assert_eq!(seen, vec![(0, 0), (0, 1), (1, 0)]);
    assert_eq!(p.stopped, Some(GitBotError::RowTooShort { week: 1, day: 1 }));
}

#[test]
fn years_before_1974_are_refused() {
    let grid = vec![vec![1usize]];
    for year in [1973, 1900, -5, MIN_YEAR - 1, i32::MIN] {
        assert_eq!(
            check_commit_preflight(&config("d", year, true), &NO_REPO),
            Some(GitBotError::YearTooEarly(year))
        );
        assert!(matches!(
            generate_commits(&grid, &config("d", year, true), &NO_REPO),
            Err(GitBotError::YearTooEarly(y)) if y == year
        ));
    }
    // the name and the repository are checked first
    assert!(matches!(
        generate_commits(&grid, &config("", 1900, false), &NO_REPO),
        Err(GitBotError::EmptyDummyFileName)
    ));
    assert!(matches!(
        generate_commits(&grid, &config("d", 1900, false), &NO_REPO),
        Err(GitBotError::PathNotFound)
    ));
    let p = plan(&grid, &config("d", 1974, true), &NO_REPO);
    assert_eq!(p.cells.len(), 1);
}
