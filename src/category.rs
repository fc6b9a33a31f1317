use crate::errors::BackupServiceError;
use crate::text::{chars_of, starts_with_chars};
use vstd::prelude::*;

verus! {

/// Which root a native path, or the repository kept for it, belongs to.
#[derive(Debug, Clone, Copy, PartialEq, Eq, Structural)]
pub enum Category {
    UserHome,
    DockerVolume,
    System,
}

/// The root under which each user has a home directory.
pub open spec fn home_root() -> Seq<char> {
    "/home/"@
}

/// The root under which each container volume has a directory.
pub open spec fn volumes_root() -> Seq<char> {
    "/mnt/docker-data/volumes/"@
}

/// `p` lies strictly below `root` (which ends in a slash).
pub open spec fn strictly_below(p: Seq<char>, root: Seq<char>) -> bool {
    root.is_prefix_of(p) && p.len() > root.len()
}

/// The category of a native path: a bare root directory is a system path.
pub open spec fn classify_spec(p: Seq<char>) -> Category {
    if strictly_below(p, home_root()) {
        Category::UserHome
    } else if strictly_below(p, volumes_root()) {
        Category::DockerVolume
    } else {
        Category::System
    }
}

/// The name of a category, as it stands first in a repository key.
pub open spec fn category_name(c: Category) -> Seq<char> {
    match c {
        Category::UserHome => "user_home"@,
        Category::DockerVolume => "docker_volume"@,
        Category::System => "system"@,
    }
}

impl Category {
    /// The name of the category, as it stands first in a repository key.
    pub fn as_str(&self) -> (r: &'static str)
        ensures
            r@ == category_name(*self),
    {
        match self {
            Category::UserHome => "user_home",
            Category::DockerVolume => "docker_volume",
            Category::System => "system",
        }
    }
}

/// The category of a native path.
pub fn classify(path: &str) -> (c: Category)
    ensures
        c == classify_spec(path@),
{
    let pv = chars_of(path);
    if starts_with_chars(&pv, "/home/") && pv.len() > "/home/".unicode_len() {
        Category::UserHome
    } else if starts_with_chars(&pv, "/mnt/docker-data/volumes/") && pv.len()
        > "/mnt/docker-data/volumes/".unicode_len() {
        Category::DockerVolume
    } else {
        Category::System
    }
}

/// The tag given to a backup of a native path.
pub open spec fn backup_tag_spec(p: Seq<char>) -> Seq<char> {
    if home_root().is_prefix_of(p) {
        "user-path"@
    } else if volumes_root().is_prefix_of(p) {
        "docker-volume"@
    } else {
        "system-path"@
    }
}

/// The tag given to a backup of `path`.
pub fn determine_backup_tag(path: &str) -> (r: Result<&'static str, BackupServiceError>)
    ensures
        r matches Ok(t) && t@ == backup_tag_spec(path@),
{
    let pv = chars_of(path);
    if starts_with_chars(&pv, "/home/") {
        Ok("user-path")
    } else if starts_with_chars(&pv, "/mnt/docker-data/volumes/") {
        Ok("docker-volume")
    } else {
        Ok("system-path")
    }
}

/// A backed-up native path and how many snapshots it has.
#[derive(Debug, Clone)]
pub struct BackupRepo {
    pub native_path: String,
    pub snapshot_count: usize,
}

impl BackupRepo {
    /// A record for `native_path` with no snapshots counted yet.
    pub fn new(native_path: String) -> (r: Result<Self, BackupServiceError>)
        ensures
            r matches Ok(b) && b.native_path@ == native_path@ && b.snapshot_count == 0,
    {
        Ok(BackupRepo { native_path, snapshot_count: 0 })
    }

    /// The same record with `count` snapshots.
    pub fn with_count(self, count: usize) -> (r: Result<Self, BackupServiceError>)
        ensures
            r matches Ok(b) && b.native_path@ == self.native_path@ && b.snapshot_count == count,
    {
        let mut s = self;
        s.snapshot_count = count;
        Ok(s)
    }

    /// The name of the category of the record's path.
    pub fn category(&self) -> (r: Result<&'static str, BackupServiceError>)
        ensures
            r matches Ok(n) && n@ == category_name(classify_spec(self.native_path@)),
    {
        let c = classify(self.native_path.as_str());
        Ok(c.as_str())
    }
}

} // verus!
