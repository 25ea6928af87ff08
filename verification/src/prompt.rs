use vstd::prelude::*;
use crate::text::{chars_le, decimal, lemma_decimal_parses, parsed_i32, parse_i32, sort_strings, texts, trim_white_space, trimmed};

verus! {

/// The settings that a run works with.
pub struct InteractiveConfig {
    pub image_path: String,
    pub repo_path: String,
    pub dummy_file: String,
    pub year: i32,
    pub preview_only: bool,
    pub push: bool,
    pub dry_run: bool,
}

/// The menu entry that asks for an image path of one's own.
pub const CUSTOM_PATH_CHOICE: &'static str = "Custom path...";

/// The earliest year that commits may be dated in.
pub const EARLIEST_YEAR: i32 = 1974;

/// The latest year that is accepted.
pub const LATEST_YEAR: i32 = 2100;

/// The action menu entries.
pub const ACTION_PREVIEW: &'static str = "Preview in terminal only";
pub const ACTION_GENERATE: &'static str = "Generate commits locally";
pub const ACTION_GENERATE_AND_PUSH: &'static str = "Generate commits and push to GitHub";
pub const ACTION_DRY_RUN: &'static str = "Dry run (simulation only)";

/// `c` with an ASCII capital letter made small.
pub open spec fn ascii_lower(c: char) -> char {
    if 'A' <= c <= 'Z' {
        ((c as int) + 32) as char
    } else {
        c
    }
}

pub open spec fn ascii_lowered(s: Seq<char>) -> Seq<char> {
    s.map_values(|c: char| ascii_lower(c))
}

/// The file extension names an image: `png`, `jpg` or `jpeg` in any case. (Only ASCII letters
/// lowercase to these letters, so full Unicode lowercasing decides the same.)
pub open spec fn is_image_extension_text(ext: Seq<char>) -> bool {
    ||| ascii_lowered(ext) == seq!['p', 'n', 'g']
    ||| ascii_lowered(ext) == seq!['j', 'p', 'g']
    ||| ascii_lowered(ext) == seq!['j', 'p', 'e', 'g']
}

fn lower_char(c: char) -> (l: char)
    ensures
        l == ascii_lower(c),
{
    if 'A' <= c && c <= 'Z' {
        ((c as u32) + 32) as u8 as char
    } else {
        c
    }
}

/// `s` equals `lower` once its ASCII capitals are made small.
fn equals_ignoring_ascii_case(s: &str, lower: &[char]) -> (same: bool)
    ensures
        same == (ascii_lowered(s@) == lower@),
{
    let n = s.unicode_len();
    if n != lower.len() {
        assert(ascii_lowered(s@).len() != lower@.len());
        return false;
    }
    let mut i: usize = 0;
    while i < n
        invariant
            n == s@.len(),
            n == lower@.len(),
            i <= n,
            forall|k: int| 0 <= k < i ==> ascii_lower(#[trigger] s@[k]) == lower@[k],
        decreases n - i,
    {
        let c = s.get_char(i);
        if lower_char(c) != lower[i] {
            assert(ascii_lowered(s@)[i as int] != lower@[i as int]);
            return false;
        }
        i = i + 1;
    }
    assert(ascii_lowered(s@) =~= lower@);
    true
}

/// The file extension names a supported image format: `png`, `jpg` or `jpeg`, in any case.
pub fn is_image_extension(ext: &str) -> (is_image: bool)
    ensures
        is_image == is_image_extension_text(ext@),
{
    equals_ignoring_ascii_case(ext, &['p', 'n', 'g']) || equals_ignoring_ascii_case(
        ext,
        &['j', 'p', 'g'],
    ) || equals_ignoring_ascii_case(ext, &['j', 'p', 'e', 'g'])
}

/// A file found among the pixel art presets.
pub struct ImageCandidate {
    /// The file's path, as text.
    pub path: String,
    /// The file's extension, when it has one that is valid text.
    pub extension: Option<String>,
}

/// The paths of the candidates that are images, in their order.
pub open spec fn image_paths(candidates: Seq<ImageCandidate>) -> Seq<Seq<char>>
    decreases candidates.len(),
{
    if candidates.len() == 0 {
        seq![]
    } else {
        let prev = image_paths(candidates.drop_last());
        let last = candidates.last();
        match last.extension {
            Some(e) => if is_image_extension_text(e@) {
                prev.push(last.path@)
            } else {
                prev
            },
            None => prev,
        }
    }
}

/// The image menu: the paths of the image files among `candidates`, sorted, then the entry
/// for a path of one's own.
pub fn image_menu_options(candidates: Vec<ImageCandidate>) -> (options: Vec<String>)
    ensures
        options@.len() == image_paths(candidates@).len() + 1,
        options@.last()@ == CUSTOM_PATH_CHOICE@,
        texts(options@.drop_last()).to_multiset() == image_paths(candidates@).to_multiset(),
        forall|i: int, j: int|
            0 <= i < j < options@.len() - 1 ==> chars_le(
                #[trigger] options@[i]@,
                #[trigger] options@[j]@,
            ),
{
    let mut options: Vec<String> = Vec::new();
    let mut i: usize = 0;
    let ghost cands = candidates@;
    while i < candidates.len()
        invariant
            cands == candidates@,
            i <= cands.len(),
            texts(options@) == image_paths(cands.take(i as int)),
        decreases cands.len() - i,
    {
        proof {
            assert(cands.take(i + 1).drop_last() =~= cands.take(i as int));
            assert(cands.take(i + 1).last() == cands[i as int]);
        }
        let candidate = &candidates[i];
        match &candidate.extension {
            Some(ext) => {
                if is_image_extension(ext.as_str()) {
                    options.push(candidate.path.clone());
                    assert(texts(options@) =~= image_paths(cands.take(i as int)).push(
                        candidate.path@,
                    ));
                }
            },
            None => {},
        }
        i = i + 1;
    }
    assert(cands.take(cands.len() as int) =~= cands);
    sort_strings(&mut options);
    let ghost sorted = options@;
    options.push(CUSTOM_PATH_CHOICE.to_owned());
    assert(options@.drop_last() =~= sorted);
    options
}

/// The chosen menu entry asks for an image path of one's own.
pub fn is_custom_path_choice(choice: &str) -> (custom: bool)
    ensures
        custom == (choice@ == CUSTOM_PATH_CHOICE@),
{
    choice.to_owned() == CUSTOM_PATH_CHOICE.to_owned()
}

/// A dummy file name is accepted when it is not empty once trimmed.
pub fn is_valid_dummy_file_name(input: &str) -> (valid: bool)
    ensures
        valid == (trimmed(input@).len() > 0),
{
    !trim_white_space(input).is_empty()
}

/// What the year prompt makes of an answer.
#[derive(Clone, Copy, Debug, PartialEq, Eq, Structural)]
pub enum YearCheck {
    Valid(i32),
    /// Git commits cannot predate 1974.
    TooEarly,
    /// The year seems too far in the future.
    TooLate,
    /// Not a year at all.
    NotANumber,
}

pub open spec fn year_check_of(input: Seq<char>) -> YearCheck {
    match parsed_i32(trimmed(input)) {
        Some(y) => if y < EARLIEST_YEAR {
            YearCheck::TooEarly
        } else if y > LATEST_YEAR {
            YearCheck::TooLate
        } else {
            YearCheck::Valid(y)
        },
        None => YearCheck::NotANumber,
    }
}

/// Check an answer to the year prompt: a whole number between 1974 and 2100, blanks aside.
pub fn check_year_input(input: &str) -> (check: YearCheck)
    ensures
        check == year_check_of(input@),
        check matches YearCheck::Valid(y) ==> 1974 <= y <= 2100 && parsed_i32(trimmed(input@))
            == Some(y),
        check == YearCheck::TooEarly ==> (parsed_i32(trimmed(input@)) matches Some(y) && y < 1974),
        check == YearCheck::TooLate ==> (parsed_i32(trimmed(input@)) matches Some(y) && y > 2100),
        check == YearCheck::NotANumber ==> parsed_i32(trimmed(input@)) is None,
{
    proof {
        law_year_answers(input@);
    }
    match parse_i32(trim_white_space(input)) {
        Some(y) => if y < EARLIEST_YEAR {
            YearCheck::TooEarly
        } else if y > LATEST_YEAR {
            YearCheck::TooLate
        } else {
            YearCheck::Valid(y)
        },
        None => YearCheck::NotANumber,
    }
}

/// The year offered by default: the previous one, so as to fill a complete year.
pub fn default_year(current_year: i32) -> (year: i32)
    requires
        current_year > i32::MIN,
    ensures
        year == current_year - 1,
{
    current_year - 1
}

/// What the run is to do.
#[derive(Clone, Copy, Debug, PartialEq, Eq, Structural)]
pub enum WizardAction {
    PreviewOnly,
    GenerateLocally,
    GenerateAndPush,
    DryRun,
}

/// The entries of the action menu, in order.
pub fn action_labels() -> (labels: Vec<&'static str>)
    ensures
        labels@.len() == 4,
        labels@[0]@ == ACTION_PREVIEW@,
        labels@[1]@ == ACTION_GENERATE@,
        labels@[2]@ == ACTION_GENERATE_AND_PUSH@,
        labels@[3]@ == ACTION_DRY_RUN@,
{
    let mut labels: Vec<&'static str> = Vec::new();
    labels.push(ACTION_PREVIEW);
    labels.push(ACTION_GENERATE);
    labels.push(ACTION_GENERATE_AND_PUSH);
    labels.push(ACTION_DRY_RUN);
    labels
}

pub open spec fn action_of(label: Seq<char>) -> WizardAction {
    if label == ACTION_PREVIEW@ {
        WizardAction::PreviewOnly
    } else if label == ACTION_GENERATE@ {
        WizardAction::GenerateLocally
    } else if label == ACTION_GENERATE_AND_PUSH@ {
        WizardAction::GenerateAndPush
    } else if label == ACTION_DRY_RUN@ {
        WizardAction::DryRun
    } else {
        WizardAction::PreviewOnly
    }
}

/// The action of a menu entry; anything unknown only previews.
pub fn action_for_label(label: &str) -> (action: WizardAction)
    ensures
        action == action_of(label@),
{
    let label = label.to_owned();
    if label == ACTION_PREVIEW.to_owned() {
        WizardAction::PreviewOnly
    } else if label == ACTION_GENERATE.to_owned() {
        WizardAction::GenerateLocally
    } else if label == ACTION_GENERATE_AND_PUSH.to_owned() {
        WizardAction::GenerateAndPush
    } else if label == ACTION_DRY_RUN.to_owned() {
        WizardAction::DryRun
    } else {
        WizardAction::PreviewOnly
    }
}

/// `(preview_only, push, dry_run)` for an action; pushing needs the user's confirmation.
pub open spec fn action_flags_of(action: WizardAction, push_confirmed: bool) -> (bool, bool, bool) {
    match action {
        WizardAction::PreviewOnly => (true, false, false),
        WizardAction::GenerateLocally => (false, false, false),
        WizardAction::GenerateAndPush => (false, push_confirmed, false),
        WizardAction::DryRun => (false, false, true),
    }
}

/// `(preview_only, push, dry_run)` for an action.
pub fn action_flags(action: WizardAction, push_confirmed: bool) -> (flags: (bool, bool, bool))
    ensures
        flags == action_flags_of(action, push_confirmed),
        flags.0 == (action == WizardAction::PreviewOnly),
        flags.1 == (action == WizardAction::GenerateAndPush && push_confirmed),
        flags.2 == (action == WizardAction::DryRun),
{
    proof {
        law_action_flags(action, push_confirmed);
    }
    match action {
        WizardAction::PreviewOnly => (true, false, false),
        WizardAction::GenerateLocally => (false, false, false),
        WizardAction::GenerateAndPush => (false, push_confirmed, false),
        WizardAction::DryRun => (false, false, true),
    }
}

/// The settings from the wizard's answers: the chosen image, or the trimmed custom path when
/// the custom entry was chosen; the trimmed repository path and dummy file name; the year;
/// and the flags of the action.
pub fn wizard_config(
    image_choice: &str,
    custom_image_input: &str,
    repo_input: &str,
    dummy_input: &str,
    year: i32,
    action: WizardAction,
    push_confirmed: bool,
) -> (config: InteractiveConfig)
    ensures
        config.image_path@ == (if image_choice@ == CUSTOM_PATH_CHOICE@ {
            trimmed(custom_image_input@)
        } else {
            image_choice@
        }),
        config.repo_path@ == trimmed(repo_input@),
        config.dummy_file@ == trimmed(dummy_input@),
        config.year == year,
        (config.preview_only, config.push, config.dry_run) == action_flags_of(
            action,
            push_confirmed,
        ),
        config.preview_only == (action == WizardAction::PreviewOnly),
        config.push == (action == WizardAction::GenerateAndPush && push_confirmed),
        config.dry_run == (action == WizardAction::DryRun),
{
    let image_path = if is_custom_path_choice(image_choice) {
        trim_white_space(custom_image_input).to_owned()
    } else {
        image_choice.to_owned()
    };
    let (preview_only, push, dry_run) = action_flags(action, push_confirmed);
    InteractiveConfig {
        image_path,
        repo_path: trim_white_space(repo_input).to_owned(),
        dummy_file: trim_white_space(dummy_input).to_owned(),
        year,
        preview_only,
        push,
        dry_run,
    }
}

/// Each action sets its own flag and no other: only previewing sets `preview_only`, only a dry
/// run sets `dry_run`, only generating and pushing can set `push`, and it does so exactly when
/// the push was confirmed. The confirmation changes nothing else.
pub proof fn law_action_flags(action: WizardAction, push_confirmed: bool)
    ensures
        action_flags_of(action, push_confirmed).0 == (action == WizardAction::PreviewOnly),
        action_flags_of(action, push_confirmed).1 == (action == WizardAction::GenerateAndPush
            && push_confirmed),
        action_flags_of(action, push_confirmed).2 == (action == WizardAction::DryRun),
        action_flags_of(action, true).0 == action_flags_of(action, false).0,
        action_flags_of(action, true).2 == action_flags_of(action, false).2,
        !(action_flags_of(action, push_confirmed).0 && action_flags_of(action, push_confirmed).2),
{
}

/// Every menu entry picks its own action: the preview entry previews only, and so on.
pub proof fn law_action_labels()
    ensures
        action_of(ACTION_PREVIEW@) == WizardAction::PreviewOnly,
        action_of(ACTION_GENERATE@) == WizardAction::GenerateLocally,
        action_of(ACTION_GENERATE_AND_PUSH@) == WizardAction::GenerateAndPush,
        action_of(ACTION_DRY_RUN@) == WizardAction::DryRun,
{
    reveal_strlit("Preview in terminal only");
    reveal_strlit("Generate commits locally");
    reveal_strlit("Generate commits and push to GitHub");
    reveal_strlit("Dry run (simulation only)");
    assert(ACTION_GENERATE@[0] != ACTION_PREVIEW@[0]);
    assert(ACTION_GENERATE_AND_PUSH@[0] != ACTION_PREVIEW@[0]);
    assert(ACTION_GENERATE_AND_PUSH@.len() != ACTION_GENERATE@.len());
}

/// An answer to the year prompt is accepted exactly when it reads as a year from 1974 to 2100,
/// and then as that year; it is too early or too late only when it reads as a year before 1974
/// or after 2100.
pub proof fn law_year_answers(input: Seq<char>)
    ensures
        year_check_of(input) matches YearCheck::Valid(y) ==> 1974 <= y <= 2100 && parsed_i32(
            trimmed(input),
        ) == Some(y),
        year_check_of(input) == YearCheck::TooEarly ==> (parsed_i32(trimmed(input)) matches Some(
            y,
        ) && y < 1974),
        year_check_of(input) == YearCheck::TooLate ==> (parsed_i32(trimmed(input)) matches Some(
            y,
        ) && y > 2100),
        year_check_of(input) == YearCheck::NotANumber ==> parsed_i32(trimmed(input)) is None,
        (parsed_i32(trimmed(input)) matches Some(y) && 1974 <= y <= 2100) ==> year_check_of(input)
            == YearCheck::Valid(parsed_i32(trimmed(input))->0),
{
}

/// Every year from 1974 to 2100, written in decimal, is accepted as that year.
pub proof fn law_years_in_range_are_valid(y: int)
    requires
        1974 <= y <= 2100,
    ensures
        year_check_of(decimal(y as nat)) == YearCheck::Valid(y as i32),
{
    lemma_decimal_parses(y as nat);
}

} // verus!
