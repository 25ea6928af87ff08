use gitxel_art::cli::{Cli, DEFAULT_IMAGE_PATH, DEFAULT_YEAR};

fn bare() -> Cli {
    Cli {
        image: None,
        repo: None,
        year: None,
        dummy_file: "dummy.txt".to_string(),
        preview: false,
        push: false,
        dry_run: false,
        interactive: false,
    }
}

#[test]
fn no_arguments_means_interactive() {
    assert!(!bare().is_non_interactive());
}

#[test]
fn any_target_argument_means_non_interactive() {
    let mut c = bare();
    c.image = Some("a.png".to_string());
    assert!(c.is_non_interactive());
    let mut c = bare();
    c.repo = Some("/tmp".to_string());
    assert!(c.is_non_interactive());
    let mut c = bare();
    c.year = Some(2020);
    assert!(c.is_non_interactive());
    let mut c = bare();
    c.preview = true;
    assert!(c.is_non_interactive());
}

#[test]
fn push_or_dry_run_alone_is_interactive() {
    let mut c = bare();
    c.push = true;
    c.dry_run = true;
    assert!(!c.is_non_interactive());
}

#[test]
fn interactive_flag_wins() {
    let mut c = bare();
    c.image = Some("a.png".to_string());
    c.interactive = true;
    assert!(!c.is_non_interactive());
}

#[test]
fn defaults_fill_missing_settings() {
    let mut c = bare();
    c.preview = true;
    let s = c.into_settings("/home/me".to_string());
    assert_eq!(s.image_path, DEFAULT_IMAGE_PATH);
    assert_eq!(s.image_path, "./pixel_art/Space_invader.jpg");
    assert_eq!(s.repo_path, "/home/me");
    assert_eq!(s.year, DEFAULT_YEAR);
    assert_eq!(s.year, 2024);
    assert_eq!(s.dummy_file, "dummy.txt");
    assert!(s.preview_only && !s.push && !s.dry_run);
}

#[test]
fn given_settings_are_kept() {
    let c = Cli {
        image: Some("art.png".to_string()),
        repo: Some("/r".to_string()),
        year: Some(2019),
        dummy_file: "x".to_string(),
        preview: false,
        push: true,
        dry_run: true,
        interactive: false,
    };
    let s = c.into_settings("/unused".to_string());
    assert_eq!(s.image_path, "art.png");
    assert_eq!(s.repo_path, "/r");
    assert_eq!(s.year, 2019);
    assert_eq!(s.dummy_file, "x");
    assert!(!s.preview_only && s.push && s.dry_run);
}
