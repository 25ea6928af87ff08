use gitxel_art::preview::{build_graph_preview, day_label, week_marker, GitHubColors, WeekMarker};

#[test]
fn colors_follow_commit_levels() {
    assert_eq!(GitHubColors::color_for_commits(0), (22, 27, 34));
    assert_eq!(GitHubColors::color_for_commits(1), (14, 68, 41));
    assert_eq!(GitHubColors::color_for_commits(2), (1, 109, 50));
    assert_eq!(GitHubColors::color_for_commits(3), (38, 166, 65));
    assert_eq!(GitHubColors::color_for_commits(4), (38, 166, 65));
    assert_eq!(GitHubColors::color_for_commits(5), (57, 211, 83));
    assert_eq!(GitHubColors::color_for_commits(8), (57, 211, 83));
    assert_eq!(GitHubColors::color_for_commits(usize::MAX), GitHubColors::LEVEL_4);
}

#[test]
fn week_markers_every_five_weeks() {
    assert_eq!(week_marker(0), WeekMarker::Blank);
    assert_eq!(week_marker(3), WeekMarker::Blank);
    assert_eq!(week_marker(4), WeekMarker::Number(5));
    assert_eq!(week_marker(5), WeekMarker::Nothing);
    assert_eq!(week_marker(6), WeekMarker::Blank);
    assert_eq!(week_marker(9), WeekMarker::Number(10));
    assert_eq!(week_marker(45), WeekMarker::Nothing);
}

#[test]
fn day_labels_start_on_sunday() {
    let labels: Vec<&str> = (0..8).map(day_label).collect();
    assert_eq!(labels, vec!["Sun", "Mon", "Tue", "Wed", "Thu", "Fri", "Sat", "   "]);
}

#[test]
fn preview_of_a_grid() {
    let mut grid = vec![vec![0usize; 49]; 7];
    grid[0][0] = 8;
    grid[3][10] = 2;
    let p = build_graph_preview(&grid);
    assert_eq!(p.rule_width, 49 * 2 + 8);
    assert_eq!(p.markers.len(), 49);
    assert_eq!(p.markers[4], WeekMarker::Number(5));
    assert_eq!(p.rows.len(), 7);
    assert_eq!(p.rows[0][0], GitHubColors::LEVEL_4);
    assert_eq!(p.rows[3][10], GitHubColors::LEVEL_2);
    assert_eq!(p.rows[3][11], GitHubColors::EMPTY);
    assert_eq!(p.total_commits, 10);
    assert_eq!(
        p.legend,
        vec![
            GitHubColors::EMPTY,
            GitHubColors::LEVEL_1,
            GitHubColors::LEVEL_2,
            GitHubColors::LEVEL_3,
            GitHubColors::LEVEL_4
        ]
    );
}

#[test]
fn preview_of_an_empty_grid() {
    let grid: Vec<Vec<usize>> = Vec::new();
    let p = build_graph_preview(&grid);
    assert_eq!(p.rule_width, 8);
    assert!(p.markers.is_empty());
    assert!(p.rows.is_empty());
    assert_eq!(p.total_commits, 0);
}
