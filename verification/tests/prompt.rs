use gitxel_art::prompt::{
    action_flags, action_for_label, action_labels, check_year_input, default_year,
    image_menu_options, is_custom_path_choice, is_image_extension, is_valid_dummy_file_name,
    wizard_config, ImageCandidate, WizardAction, YearCheck, CUSTOM_PATH_CHOICE,
};

#[test]
fn image_extensions() {
    for ext in ["png", "PNG", "Png", "jpg", "JPG", "jpeg", "JpEg"] {
        assert!(is_image_extension(ext), "{}", ext);
    }
    for ext in ["gif", "", "pn", "pngg", "jpe", "bmp", "ｐｎｇ", "p\u{212a}g"] {
        assert!(!is_image_extension(ext), "{}", ext);
    }
}

fn cand(path: &str, ext: Option<&str>) -> ImageCandidate {
    ImageCandidate { path: path.to_string(), extension: ext.map(|e| e.to_string()) }
}

#[test]
fn image_menu_lists_sorted_images_then_custom() {
    let options = image_menu_options(vec![
        cand("./pixel_art/zebra.png", Some("png")),
        cand("./pixel_art/notes.txt", Some("txt")),
        cand("./pixel_art/Alien.JPG", Some("JPG")),
        cand("./pixel_art/README", None),
        cand("./pixel_art/mario.jpeg", Some("jpeg")),
    ]);
    assert_eq!(
        options,
        vec![
            "./pixel_art/Alien.JPG",
            "./pixel_art/mario.jpeg",
            "./pixel_art/zebra.png",
            CUSTOM_PATH_CHOICE,
        ]
    );
}

#[test]
fn image_menu_without_images() {
    assert_eq!(image_menu_options(Vec::new()), vec!["Custom path..."]);
}

#[test]
fn custom_path_choice() {
    assert!(is_custom_path_choice("Custom path..."));
    assert!(!is_custom_path_choice("custom path..."));
    assert!(!is_custom_path_choice("./pixel_art/a.png"));
}

#[test]
fn dummy_file_names() {
    assert!(is_valid_dummy_file_name("dummy.txt"));
    assert!(is_valid_dummy_file_name("  a  "));
    assert!(!is_valid_dummy_file_name(""));
    assert!(!is_valid_dummy_file_name(" \t\r\n"));
}

#[test]
fn year_answers() {
    assert_eq!(check_year_input("2024"), YearCheck::Valid(2024));
    assert_eq!(check_year_input("  1974 \n"), YearCheck::Valid(1974));
    assert_eq!(check_year_input("+2100"), YearCheck::Valid(2100));
    assert_eq!(check_year_input("1973"), YearCheck::TooEarly);
    assert_eq!(check_year_input("-5"), YearCheck::TooEarly);
    assert_eq!(check_year_input("2101"), YearCheck::TooLate);
    assert_eq!(check_year_input("99999999999"), YearCheck::NotANumber);
    assert_eq!(check_year_input("twenty"), YearCheck::NotANumber);
    assert_eq!(check_year_input(""), YearCheck::NotANumber);
    assert_eq!(check_year_input("20 24"), YearCheck::NotANumber);
    assert_eq!(check_year_input("+"), YearCheck::NotANumber);
}

#[test]
fn default_year_is_the_previous_one() {
    assert_eq!(default_year(2025), 2024);
}

#[test]
fn actions() {
    let labels = action_labels();
    assert_eq!(
        labels,
        vec![
            "Preview in terminal only",
            "Generate commits locally",
            "Generate commits and push to GitHub",
            "Dry run (simulation only)",
        ]
    );
    assert_eq!(action_for_label(labels[0]), WizardAction::PreviewOnly);
    assert_eq!(action_for_label(labels[1]), WizardAction::GenerateLocally);
    assert_eq!(action_for_label(labels[2]), WizardAction::GenerateAndPush);
    assert_eq!(action_for_label(labels[3]), WizardAction::DryRun);
    assert_eq!(action_for_label("something else"), WizardAction::PreviewOnly);
    assert_eq!(action_flags(WizardAction::PreviewOnly, true), (true, false, false));
    assert_eq!(action_flags(WizardAction::GenerateLocally, true), (false, false, false));
    assert_eq!(action_flags(WizardAction::GenerateAndPush, true), (false, true, false));
    assert_eq!(action_flags(WizardAction::GenerateAndPush, false), (false, false, false));
    assert_eq!(action_flags(WizardAction::DryRun, true), (false, false, true));
}

#[test]
fn wizard_answers_become_settings() {
    let c = wizard_config(
        "Custom path...",
        "  ./my.png ",
        " /repo \n",
        " dummy.txt ",
        2023,
        WizardAction::DryRun,
        false,
    );
    assert_eq!(c.image_path, "./my.png");
    assert_eq!(c.repo_path, "/repo");
    assert_eq!(c.dummy_file, "dummy.txt");
    assert_eq!(c.year, 2023);
    assert!(!c.preview_only && !c.push && c.dry_run);

    let c = wizard_config(
        "./pixel_art/a.png",
        "",
        "/r",
        "d",
        2020,
        WizardAction::GenerateAndPush,
        true,
    );
    assert_eq!(c.image_path, "./pixel_art/a.png");
    assert!(!c.preview_only && c.push && !c.dry_run);
}
