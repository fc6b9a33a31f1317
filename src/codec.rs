use crate::category::{classify_spec, home_root, strictly_below, volumes_root, Category};
use crate::errors::BackupServiceError;
use crate::text::{
    append_replaced, chars_of, count_char, equals_str, find, find_after, lemma_first_char_differs, replace_char, starts_with_chars,
    trim_leading,
};
use vstd::prelude::*;

verus! {

/// `s` with every path separator written as `_`.
pub open spec fn flatten(s: Seq<char>) -> Seq<char> {
    replace_char(s, '/', '_')
}

/// The repository key of a native path: the category (as `classify_spec`
/// gives it), then the rest of the path flattened (a user's name stays a
/// segment of its own). A bare root directory is a system path.
pub open spec fn encode_spec(p: Seq<char>) -> Seq<char> {
    if strictly_below(p, home_root()) {
        let rest = p.skip(home_root().len() as int);
        match find(rest, "/"@) {
            None => "user_home/"@ + rest,
            Some(k) => "user_home/"@ + rest.take(k) + "/"@ + flatten(rest.skip(k + 1)),
        }
    } else if strictly_below(p, volumes_root()) {
        "docker_volume/"@ + flatten(p.skip(volumes_root().len() as int))
    } else {
        let rest = trim_leading(p, '/');
        if rest.len() == 0 {
            "system"@
        } else {
            "system/"@ + flatten(rest)
        }
    }
}

/// The native fragment that a flattened directory name is read back as: with
/// two or more underscores every one is a separator, else the name is literal.
pub open spec fn decode_spec(seg: Seq<char>) -> Seq<char> {
    if count_char(seg, '_') > 1 {
        replace_char(seg, '_', '/')
    } else {
        seg
    }
}

/// The category that a repository key's first segment names.
pub open spec fn key_category_spec(k: Seq<char>) -> Category {
    if k == "user_home"@ || "user_home/"@.is_prefix_of(k) {
        Category::UserHome
    } else if k == "docker_volume"@ || "docker_volume/"@.is_prefix_of(k) {
        Category::DockerVolume
    } else {
        Category::System
    }
}

/// Conversions between native paths and repository keys.
pub struct PathMapper;

impl PathMapper {
    /// The repository key of a native path.
    pub fn path_to_repo_subpath(path: &str) -> (r: Result<String, BackupServiceError>)
        ensures
            r matches Ok(k) && k@ == encode_spec(path@),
    {
        let pv = chars_of(path);
        let n = pv.len();
        let slash = chars_of("/");
        if starts_with_chars(&pv, "/home/") && n > "/home/".unicode_len() {
            let start = "/home/".unicode_len();
            let mut key = String::from_str("user_home/");
            match find_after(&pv, start, &slash) {
                None => {
                    key.append(path.substring_char(start, n));
                    proof {
                        assert(path@.subrange(start as int, n as int) =~= path@.skip(
                            home_root().len() as int,
                        ));
                    }
                },
                Some(k) => {
                    proof {
                        reveal_strlit("/");
                    }
                    key.append(path.substring_char(start, start + k));
                    key.append("/");
                    proof {
                        reveal_strlit("_");
                    }
                    append_replaced(&mut key, path, &pv, start + k + 1, n, '/', "_");
                    proof {
                        reveal_strlit("_");
                        let rest = path@.skip(home_root().len() as int);
                        assert(path@.subrange(start as int, start + k) =~= rest.take(k as int));
                        assert(path@.subrange(start + k + 1, n as int) =~= rest.skip(k + 1));
                    }
                },
            }
            Ok(key)
        } else if starts_with_chars(&pv, "/mnt/docker-data/volumes/") && n
            > "/mnt/docker-data/volumes/".unicode_len() {
            let start = "/mnt/docker-data/volumes/".unicode_len();
            {
                let mut key = String::from_str("docker_volume/");
                proof {
                    reveal_strlit("_");
                }
                append_replaced(&mut key, path, &pv, start, n, '/', "_");
                proof {
                    reveal_strlit("_");
                    assert(path@.subrange(start as int, n as int) =~= path@.skip(
                        volumes_root().len() as int,
                    ));
                }
                Ok(key)
            }
        } else {
            let mut i: usize = 0;
            proof {
                assert(path@.skip(0) =~= path@);
            }
            while i < n && pv[i] == '/'
                invariant
                    n == pv@.len(),
                    pv@ == path@,
                    i <= n,
                    trim_leading(path@, '/') == trim_leading(path@.skip(i as int), '/'),
                decreases n - i,
            {
                proof {
                    assert(path@.skip(i as int).skip(1) =~= path@.skip(i + 1));
                }
                i += 1;
            }
            proof {
                assert(path@.skip(i as int) =~= path@.subrange(i as int, n as int));
            }
            if i == n {
                Ok(String::from_str("system"))
            } else {
                let mut key = String::from_str("system/");
                proof {
                    reveal_strlit("_");
                }
                append_replaced(&mut key, path, &pv, i, n, '/', "_");
                proof {
                    reveal_strlit("_");
                }
                Ok(key)
            }
        }
    }

    /// The native fragment that a flattened directory name is read back as.
    pub fn s3_to_native_path(segment: &str) -> (r: String)
        ensures
            r@ == decode_spec(segment@),
    {
        let sv = chars_of(segment);
        let n = sv.len();
        let mut count: usize = 0;
        let mut i: usize = 0;
        while i < n
            invariant
                n == sv@.len(),
                sv@ == segment@,
                i <= n,
                count as nat == count_char(segment@.take(i as int), '_'),
                count <= i,
            decreases n - i,
        {
            proof {
                assert(segment@.take(i + 1).drop_last() =~= segment@.take(i as int));
            }
            if sv[i] == '_' {
                count += 1;
            }
            i += 1;
        }
        proof {
            assert(segment@.take(n as int) =~= segment@);
        }
        if count > 1 {
            let mut out = String::new();
            proof {
                reveal_strlit("/");
            }
            append_replaced(&mut out, segment, &sv, 0, n, '_', "/");
            proof {
                reveal_strlit("/");
                assert(segment@.subrange(0, n as int) =~= segment@);
                assert(out@ =~= replace_char(segment@, '_', '/'));
            }
            out
        } else {
            String::from_str(segment)
        }
    }

    /// The category that a repository key's first segment names.
    pub fn key_category(key: &str) -> (c: Category)
        ensures
            c == key_category_spec(key@),
    {
        let kv = chars_of(key);
        if equals_str(&kv, "user_home") || starts_with_chars(&kv, "user_home/") {
            Category::UserHome
        } else if equals_str(&kv, "docker_volume") || starts_with_chars(&kv, "docker_volume/") {
            Category::DockerVolume
        } else {
            Category::System
        }
    }
}

/// Encoding is a function of the path: the same path always gets the same key.
pub proof fn lemma_encode_deterministic(p: Seq<char>, q: Seq<char>)
    requires
        p == q,
    ensures
        encode_spec(p) == encode_spec(q),
{
}

/// The category named by the key of a path is the category of the path, for
/// every path.
pub proof fn lemma_encode_keeps_category(p: Seq<char>)
    ensures
        key_category_spec(encode_spec(p)) == classify_spec(p),
{
    reveal_strlit("/home/");
    reveal_strlit("/mnt/docker-data/volumes/");
    reveal_strlit("user_home");
    reveal_strlit("user_home/");
    reveal_strlit("docker_volume");
    reveal_strlit("docker_volume/");
    reveal_strlit("system");
    reveal_strlit("system/");
    let k = encode_spec(p);
    if strictly_below(p, home_root()) {
        assert(k.subrange(0, 10) =~= "user_home/"@);
    } else if strictly_below(p, volumes_root()) {
        assert(k.subrange(0, 14) =~= "docker_volume/"@);
        assert(k[0] == 'd');
        lemma_first_char_differs("user_home"@, k);
        lemma_first_char_differs("user_home/"@, k);
    } else {
        assert(k[0] == 's');
        lemma_first_char_differs("user_home"@, k);
        lemma_first_char_differs("user_home/"@, k);
        lemma_first_char_differs("docker_volume"@, k);
        lemma_first_char_differs("docker_volume/"@, k);
    }
}

} // verus!

verus! {

/// A character that occurs in `s` counts at least once.
pub proof fn lemma_count_at_least_one(s: Seq<char>, c: char, i: int)
    requires
        0 <= i < s.len(),
        s[i] == c,
    ensures
        count_char(s, c) >= 1,
    decreases s.len(),
{
    if i < s.len() - 1 {
        lemma_count_at_least_one(s.drop_last(), c, i);
    }
}

/// A character that occurs at two places in `s` counts at least twice.
pub proof fn lemma_count_at_least_two(s: Seq<char>, c: char, i: int, j: int)
    requires
        0 <= i < j < s.len(),
        s[i] == c,
        s[j] == c,
    ensures
        count_char(s, c) >= 2,
    decreases s.len(),
{
    if j < s.len() - 1 {
        lemma_count_at_least_two(s.drop_last(), c, i, j);
    } else {
        lemma_count_at_least_one(s.drop_last(), c, i);
    }
}

/// A directory name with underscores at two places is read back with every
/// underscore as a separator.
pub proof fn lemma_decode_splits_at_two_underscores(seg: Seq<char>, i: int, j: int)
    requires
        0 <= i < j < seg.len(),
        seg[i] == '_',
        seg[j] == '_',
    ensures
        decode_spec(seg) == replace_char(seg, '_', '/'),
{
    lemma_count_at_least_two(seg, '_', i, j);
}

} // verus!
