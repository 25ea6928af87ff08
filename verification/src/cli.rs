use vstd::prelude::*;
use crate::prompt::InteractiveConfig;

verus! {

/// The image used when none is named.
pub const DEFAULT_IMAGE_PATH: &'static str = "./pixel_art/Space_invader.jpg";

/// The year used when none is named.
pub const DEFAULT_YEAR: i32 = 2024;

/// The command line options.
pub struct Cli {
    /// Path to the pixel art image (PNG/JPEG, max 49x7).
    pub image: Option<String>,
    /// Target local git repository path.
    pub repo: Option<String>,
    /// Target year for the contributions (>= 1974).
    pub year: Option<i32>,
    /// Name of the dummy file to modify in the repo.
    pub dummy_file: String,
    /// Preview only in the terminal (does not generate commits).
    pub preview: bool,
    /// Automatically push commits to origin/main after generation.
    pub push: bool,
    /// Dry run: simulate commit generation without modifying any files or git.
    pub dry_run: bool,
    /// Run in interactive mode.
    pub interactive: bool,
}

impl Cli {
    /// Enough arguments were given to run without prompting.
    pub open spec fn runs_without_prompt(&self) -> bool {
        !self.interactive && (self.image is Some || self.repo is Some || self.year is Some
            || self.preview)
    }

    /// Returns true if enough arguments were provided to run non-interactively without prompt.
    pub fn is_non_interactive(&self) -> (non_interactive: bool)
        ensures
            non_interactive == self.runs_without_prompt(),
            non_interactive == (!self.interactive && ((self.image is Some) || (self.repo is Some)
                || (self.year is Some) || self.preview)),
    {
        proof {
            law_prompt_decision(*self);
        }
        !self.interactive && (self.image.is_some() || self.repo.is_some() || self.year.is_some()
            || self.preview)
    }

    /// The settings of a run without prompts: the options given, with the default image,
    /// `current_dir` as the repository and the default year where none was named.
    pub fn into_settings(self, current_dir: String) -> (config: InteractiveConfig)
        ensures
            config.image_path@ == (match self.image {
                Some(p) => p@,
                None => DEFAULT_IMAGE_PATH@,
            }),
            config.repo_path@ == (match self.repo {
                Some(p) => p@,
                None => current_dir@,
            }),
            config.year == (match self.year {
                Some(y) => y,
                None => DEFAULT_YEAR,
            }),
            config.dummy_file@ == self.dummy_file@,
            config.preview_only == self.preview,
            config.push == self.push,
            config.dry_run == self.dry_run,
    {
        let image_path = match self.image {
            Some(p) => p,
            None => DEFAULT_IMAGE_PATH.to_owned(),
        };
        let repo_path = match self.repo {
            Some(p) => p,
            None => current_dir,
        };
        let year = match self.year {
            Some(y) => y,
            None => DEFAULT_YEAR,
        };
        InteractiveConfig {
            image_path,
            repo_path,
            dummy_file: self.dummy_file,
            year,
            preview_only: self.preview,
            push: self.push,
            dry_run: self.dry_run,
        }
    }
}

/// The wizard runs exactly when it is asked for with `--interactive`, or when none of
/// `--image`, `--repo`, `--year` and `--preview` is given; `--push`, `--dry-run` and the dummy
/// file name never decide it.
pub proof fn law_prompt_decision(cli: Cli)
    ensures
        cli.interactive ==> !cli.runs_without_prompt(),
        !cli.interactive && (cli.image is Some) ==> cli.runs_without_prompt(),
        !cli.interactive && (cli.repo is Some) ==> cli.runs_without_prompt(),
        !cli.interactive && (cli.year is Some) ==> cli.runs_without_prompt(),
        !cli.interactive && cli.preview ==> cli.runs_without_prompt(),
        (cli.image is None) && (cli.repo is None) && (cli.year is None) && !cli.preview
            ==> !cli.runs_without_prompt(),
        (Cli { push: !cli.push, dry_run: !cli.dry_run, ..cli }).runs_without_prompt()
            == cli.runs_without_prompt(),
{
}

} // verus!
