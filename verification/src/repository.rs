//! Manifest repositories: where a repository's clone lives, the id it is
//! recorded under, and whether it is cloned, updated or left alone.

use vstd::prelude::*;
use crate::text::{concat_chars, lemma_split_char_nonempty, split_char, split_char_exec, string_from};

verus! {

/// The owner and name of a repository from its Git URL
/// (`https://host/owner/name.git`): the fourth `/`-separated piece, and the
/// fifth up to its first `.`; nothing where the URL has fewer than five
/// pieces.
pub open spec fn repo_owner_name(url: Seq<char>) -> Option<(Seq<char>, Seq<char>)> {
    let p = split_char(url, '/');
    if p.len() < 5 {
        None
    } else {
        Some((p[3], split_char(p[4], '.')[0]))
    }
}

/// The place of a repository's clone below the manifests' folder, which is
/// also the id it is recorded under: `owner/name`.
pub open spec fn repo_path_of(url: Seq<char>) -> Option<Seq<char>> {
    match repo_owner_name(url) {
        Some((owner, name)) => Some(owner + seq!['/'] + name),
        None => None,
    }
}

/// Works out the place of a repository's clone, `owner/name`, from its URL;
/// nothing where the URL has fewer than five `/`-separated pieces (the
/// repository cannot be added then).
pub fn repository_path(url: &str) -> (r: Option<String>)
    ensures
        match r {
            Some(p) => repo_path_of(url@) == Some(p@),
            None => repo_path_of(url@) is None,
        },
{
    let v = crate::text::chars_of(url);
    let pieces = split_char_exec(v.as_slice(), '/');
    if pieces.len() < 5 {
        return None;
    }
    let owner = &pieces[3];
    let names = split_char_exec(pieces[4].as_slice(), '.');
    proof {
        lemma_split_char_nonempty(pieces@[4]@, '.');
    }
    let name = &names[0];
    let slash: [char; 1] = ['/'];
    assert(slash@ == seq!['/']);
    let first = concat_chars(owner.as_slice(), slash.as_slice());
    let whole = concat_chars(first.as_slice(), name.as_slice());
    Some(string_from(whole.as_slice()))
}

/// What setting up a repository does.
#[derive(Clone, Copy, Debug, PartialEq, Eq, Structural)]
pub enum RepoAction {
    /// The manifests' folder is missing: nothing is done.
    Skip,
    /// The repository is cloned and its manifests are recorded.
    Clone,
    /// The existing clone is brought up to date.
    Update,
}

/// Decides what setting up a repository does: nothing without the
/// manifests' folder, a clone where the repository's folder is missing, an
/// update otherwise.
pub fn repo_action(root_exists: bool, repo_exists: bool) -> (r: RepoAction)
    ensures
        !root_exists ==> r == RepoAction::Skip,
        root_exists && !repo_exists ==> r == RepoAction::Clone,
        root_exists && repo_exists ==> r == RepoAction::Update,
{
    if !root_exists {
        RepoAction::Skip
    } else if !repo_exists {
        RepoAction::Clone
    } else {
        RepoAction::Update
    }
}

} // verus!
