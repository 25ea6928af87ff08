use vstd::prelude::*;

verus! {

/// What to do once the commits are made.
#[derive(Clone, Copy, Debug, PartialEq, Eq, Structural)]
pub enum FollowUp {
    /// Push the commits to origin/main.
    Push,
    /// Pushing was asked for, but there is no remote `origin`: explain how to add one.
    WarnNoRemote,
    /// Tell how to push the commits to the existing remote.
    SuggestPush,
    /// Tell how to link a GitHub repository and push.
    SuggestLinkRemote,
    /// Nothing: no commits were made, or it was a dry run.
    Nothing,
}

pub open spec fn follow_up_of(commits_count: int, push: bool, dry_run: bool, has_remote_origin: bool) -> FollowUp {
    if commits_count > 0 && push && !dry_run {
        if has_remote_origin {
            FollowUp::Push
        } else {
            FollowUp::WarnNoRemote
        }
    } else if commits_count > 0 && !dry_run {
        if has_remote_origin {
            FollowUp::SuggestPush
        } else {
            FollowUp::SuggestLinkRemote
        }
    } else {
        FollowUp::Nothing
    }
}

/// Decide what follows commit generation, from the number of commits, the options and
/// whether the repository has a remote `origin`.
pub fn follow_up(commits_count: usize, push: bool, dry_run: bool, has_remote_origin: bool) -> (next: FollowUp)
    ensures
        next == follow_up_of(commits_count as int, push, dry_run, has_remote_origin),
{
    if commits_count > 0 && push && !dry_run {
        if has_remote_origin {
            FollowUp::Push
        } else {
            FollowUp::WarnNoRemote
        }
    } else if commits_count > 0 && !dry_run {
        if has_remote_origin {
            FollowUp::SuggestPush
        } else {
            FollowUp::SuggestLinkRemote
        }
    } else {
        FollowUp::Nothing
    }
}

/// Nothing is pushed, nor suggested, after a dry run.
pub proof fn law_dry_run_pushes_nothing(commits_count: int, push: bool, has_remote_origin: bool)
    ensures
        follow_up_of(commits_count, push, true, has_remote_origin) == FollowUp::Nothing,
{
}

/// Commits are pushed only when asked for, when there are some, and when there is a remote.
pub proof fn law_push_only_when_asked(commits_count: int, push: bool, dry_run: bool, has_remote_origin: bool)
    ensures
        follow_up_of(commits_count, push, dry_run, has_remote_origin) == FollowUp::Push
            <==> (commits_count > 0 && push && !dry_run && has_remote_origin),
{
}

} // verus!
