use crate::errors::BackupServiceError;
use crate::text::{chars_of, find, find_after, starts_with_chars, substring};
use vstd::prelude::*;

verus! {

/// Settings of the backup service. `restic_repo_base` has the form
/// `s3:<scheme>://<host>/<bucket>[/<base path>]`.
#[derive(Debug, Clone)]
pub struct Config {
    pub restic_password: String,
    pub restic_repo_base: String,
    pub aws_access_key_id: String,
    pub aws_secret_access_key: String,
    pub aws_default_region: String,
    pub aws_s3_endpoint: String,
    pub backup_paths: Vec<String>,
    pub hostname: String,
}

/// The endpoint named by a repository base: scheme and host, up to the first
/// slash after `://`; `fallback` when the base names none.
pub open spec fn endpoint_spec(base: Seq<char>, fallback: Seq<char>) -> Seq<char> {
    if "s3:"@.is_prefix_of(base) {
        let e = base.skip("s3:"@.len() as int);
        match find(e, "://"@) {
            Some(p) => match find(e.skip(p + "://"@.len()), "/"@) {
                Some(q) => e.take(p + "://"@.len() + q),
                None => fallback,
            },
            None => fallback,
        }
    } else {
        fallback
    }
}

/// What follows the host in a repository base, when the base has an `s3:`
/// prefix, a `//` and a slash after the host.
pub open spec fn after_host(base: Seq<char>) -> Option<Seq<char>> {
    if "s3:"@.is_prefix_of(base) {
        let e = base.skip("s3:"@.len() as int);
        match find(e, "//"@) {
            Some(p) => {
                let path = e.skip(p + "//"@.len());
                match find(path, "/"@) {
                    Some(q) => Some(path.skip(q + 1)),
                    None => None,
                }
            },
            None => None,
        }
    } else {
        None
    }
}

/// The bucket named by a repository base: the segment after the host.
pub open spec fn bucket_spec(base: Seq<char>) -> Option<Seq<char>> {
    match after_host(base) {
        Some(a) => match find(a, "/"@) {
            Some(r) => Some(a.take(r)),
            None => Some(a),
        },
        None => None,
    }
}

/// The path inside the bucket named by a repository base; empty when there is none.
pub open spec fn base_path_spec(base: Seq<char>) -> Seq<char> {
    match after_host(base) {
        Some(a) => match find(a, "/"@) {
            Some(r) => a.skip(r + 1),
            None => Seq::empty(),
        },
        None => Seq::empty(),
    }
}

/// The message given when a repository base names no bucket.
pub open spec fn no_bucket_message(base: Seq<char>) -> Seq<char> {
    "Could not extract bucket name from repo base: "@ + base
}

/// Where, in `b`, what follows the host begins.
fn after_host_start(b: &str, bv: &Vec<char>) -> (r: Option<usize>)
    requires
        bv@ == b@,
    ensures
        match r {
            Some(i) => i <= b@.len() && after_host(b@) == Some(b@.skip(i as int)),
            None => after_host(b@) is None,
        },
{
    if !starts_with_chars(bv, "s3:") {
        return None;
    }
    let n = bv.len();
    let s3 = "s3:".unicode_len();
    let two = "//".unicode_len();
    let slashes = chars_of("//");
    let slash = chars_of("/");
    match find_after(bv, s3, &slashes) {
        None => None,
        Some(p) => {
            let start = s3 + p + two;
            proof {
                assert(b@.skip(s3 as int).skip(p + "//"@.len()) =~= b@.skip(start as int));
            }
            match find_after(bv, start, &slash) {
                None => None,
                Some(q) => {
                    proof {
                        reveal_strlit("/");
                        assert(b@.skip(start as int).skip(q + 1) =~= b@.skip(start + q + 1));
                    }
                    Some(start + q + 1)
                },
            }
        },
    }
}

/// Two settings that hold the same values.
pub open spec fn same_config(a: Config, b: Config) -> bool {
    &&& a.restic_password@ == b.restic_password@
    &&& a.restic_repo_base@ == b.restic_repo_base@
    &&& a.aws_access_key_id@ == b.aws_access_key_id@
    &&& a.aws_secret_access_key@ == b.aws_secret_access_key@
    &&& a.aws_default_region@ == b.aws_default_region@
    &&& a.aws_s3_endpoint@ == b.aws_s3_endpoint@
    &&& a.backup_paths@ == b.backup_paths@
    &&& a.hostname@ == b.hostname@
}

impl Config {
    /// A copy of these settings.
    pub fn duplicate(&self) -> (r: Config)
        ensures
            same_config(r, *self),
    {
        Config {
            restic_password: self.restic_password.clone(),
            restic_repo_base: self.restic_repo_base.clone(),
            aws_access_key_id: self.aws_access_key_id.clone(),
            aws_secret_access_key: self.aws_secret_access_key.clone(),
            aws_default_region: self.aws_default_region.clone(),
            aws_s3_endpoint: self.aws_s3_endpoint.clone(),
            backup_paths: self.backup_paths.clone(),
            hostname: self.hostname.clone(),
        }
    }

    /// The S3 endpoint: taken from the repository base where it names one,
    /// else the configured endpoint.
    pub fn s3_endpoint(&self) -> (r: Result<String, BackupServiceError>)
        ensures
            r matches Ok(e) && e@ == endpoint_spec(self.restic_repo_base@, self.aws_s3_endpoint@),
    {
        let b = self.restic_repo_base.as_str();
        let bv = chars_of(b);
        if starts_with_chars(&bv, "s3:") {
            let n = bv.len();
            let s3 = "s3:".unicode_len();
            let three = "://".unicode_len();
            let proto = chars_of("://");
            let slash = chars_of("/");
            if let Some(p) = find_after(&bv, s3, &proto) {
                let after = s3 + p + three;
                proof {
                    assert(b@.skip(s3 as int).skip(p + "://"@.len()) =~= b@.skip(after as int));
                }
                if let Some(q) = find_after(&bv, after, &slash) {
                    proof {
                        assert(b@.skip(s3 as int).take(p + "://"@.len() + q) =~= b@.subrange(
                            s3 as int,
                            after + q,
                        ));
                    }
                    return Ok(substring(b, s3, after + q));
                }
            }
        }
        Ok(self.aws_s3_endpoint.clone())
    }

    /// The bucket that the repository base names.
    pub fn s3_bucket(&self) -> (r: Result<String, BackupServiceError>)
        ensures
            match bucket_spec(self.restic_repo_base@) {
                Some(bk) => r matches Ok(v) && v@ == bk,
                None => r matches Err(BackupServiceError::ConfigurationError(m)) && m@
                    == no_bucket_message(self.restic_repo_base@),
            },
    {
        let b = self.restic_repo_base.as_str();
        let bv = chars_of(b);
        let n = bv.len();
        let slash = chars_of("/");
        match after_host_start(b, &bv) {
            Some(i) => match find_after(&bv, i, &slash) {
                Some(r) => {
                    proof {
                        assert(b@.skip(i as int).take(r as int) =~= b@.subrange(i as int, i + r));
                    }
                    Ok(substring(b, i, i + r))
                },
                None => {
                    proof {
                        assert(b@.skip(i as int) =~= b@.subrange(i as int, b@.len() as int));
                    }
                    Ok(substring(b, i, bv.len()))
                },
            },
            None => {
                let msg = String::from_str("Could not extract bucket name from repo base: ");
                Err(BackupServiceError::ConfigurationError(msg.concat(b)))
            },
        }
    }

    /// The path inside the bucket under which hosts are kept; empty when there is none.
    pub fn s3_base_path(&self) -> (r: Result<String, BackupServiceError>)
        ensures
            r matches Ok(p) && p@ == base_path_spec(self.restic_repo_base@),
    {
        let b = self.restic_repo_base.as_str();
        let bv = chars_of(b);
        let n = bv.len();
        let slash = chars_of("/");
        if let Some(i) = after_host_start(b, &bv) {
            if let Some(r) = find_after(&bv, i, &slash) {
                proof {
                    reveal_strlit("/");
                    assert(b@.skip(i as int).skip(r + 1) =~= b@.subrange(i + r + 1, b@.len() as int));
                }
                return Ok(substring(b, i + r + 1, bv.len()));
            }
        }
        let empty = String::new();
        proof {
            assert(empty@ =~= Seq::<char>::empty());
        }
        Ok(empty)
    }

    /// The restic repository URL of a repository key of this host.
    pub fn get_repo_url(&self, subpath: &str) -> (r: Result<String, BackupServiceError>)
        ensures
            r matches Ok(u) && u@ == self.restic_repo_base@ + "/"@ + self.hostname@ + "/"@
                + subpath@,
    {
        let url = self.restic_repo_base.clone();
        let url = url.concat("/");
        let url = url.concat(self.hostname.as_str());
        let url = url.concat("/");
        Ok(url.concat(subpath))
    }
}

} // verus!
