use crate::discovery::str_views;
use crate::text::{
    chars_of, find, find_chars, lemma_split_on_nonempty, split_lines, split_on, strip_cr,
    substring, text_lines, trim_trailing,
};
use vstd::prelude::*;

verus! {

/// The directory name that one line of an `aws s3 ls` listing names: what
/// follows `PRE `, without trailing slashes, spaces kept; empty for a line
/// that names no directory.
pub open spec fn dir_name_of(line: Seq<char>) -> Seq<char> {
    match find(line, "PRE "@) {
        Some(k) => trim_trailing(line.skip(k + "PRE "@.len()), '/'),
        None => Seq::empty(),
    }
}

/// Keeps the names that are not empty.
pub open spec fn is_named() -> spec_fn(Seq<char>) -> bool {
    |x: Seq<char>| x.len() > 0
}

/// The directory names of an `aws s3 ls` listing, in order.
pub open spec fn listed_dirs(output: Seq<char>) -> Seq<Seq<char>> {
    text_lines(output).map_values(|l: Seq<char>| dir_name_of(l)).filter(is_named())
}

/// `line` without one trailing `\r`.
fn without_cr(line: &str) -> (r: String)
    ensures
        r@ == strip_cr(line@),
{
    let n = line.unicode_len();
    if n > 0 && line.get_char(n - 1) == '\r' {
        proof {
            assert(line@.subrange(0, n - 1) =~= line@.drop_last());
        }
        substring(line, 0, n - 1)
    } else {
        String::from_str(line)
    }
}

/// The directory name that one line of a listing names.
pub fn dir_name(line: &str) -> (r: String)
    ensures
        r@ == dir_name_of(line@),
{
    let lv = chars_of(line);
    let marker = chars_of("PRE ");
    let n = lv.len();
    match find_chars(&lv, &marker) {
        None => {
            let empty = String::new();
            proof {
                assert(empty@ =~= Seq::<char>::empty());
            }
            empty
        },
        Some(k) => {
            let start = k + "PRE ".unicode_len();
            let mut end: usize = n;
            proof {
                assert(line@.skip(start as int) =~= line@.subrange(start as int, n as int));
            }
            while end > start && lv[end - 1] == '/'
                invariant
                    lv@ == line@,
                    n == lv@.len(),
                    start <= end <= n,
                    trim_trailing(line@.skip(start as int), '/') == trim_trailing(
                        line@.subrange(start as int, end as int),
                        '/',
                    ),
                decreases end - start,
            {
                proof {
                    assert(line@.subrange(start as int, end as int).drop_last() =~= line@.subrange(
                        start as int,
                        end - 1,
                    ));
                }
                end -= 1;
            }
            substring(line, start, end)
        },
    }
}

/// The directory names of an `aws s3 ls` listing, in order: each line with
/// `PRE ` gives what follows it, trailing slashes dropped and spaces kept.
pub fn parse_s3_listing(output: &str) -> (r: Vec<String>)
    ensures
        str_views(r@) == listed_dirs(output@),
{
    let pieces = split_lines(output);
    let n = pieces.len();
    let ghost p = split_on(output@, '\n');
    let ghost lines = text_lines(output@);
    proof {
        lemma_split_on_nonempty(output@, '\n');
        assert(pieces@.map_values(|x: String| x@) == p);
        assert(lines.len() == n);
    }
    let mut out: Vec<String> = Vec::new();
    let mut k: usize = 0;
    proof {
        assert(str_views(out@) =~= lines.take(0).map_values(|l: Seq<char>| dir_name_of(l)).filter(
            is_named(),
        )) by {
            assert(lines.take(0).map_values(|l: Seq<char>| dir_name_of(l)) =~= Seq::<
                Seq<char>,
            >::empty());
            Seq::<Seq<char>>::empty().lemma_filter_len(is_named());
        }
    }
    while k < n
        invariant
            n == pieces@.len(),
            n == lines.len(),
            n >= 1,
            p == split_on(output@, '\n'),
            lines == text_lines(output@),
            pieces@.map_values(|x: String| x@) == p,
            k <= n,
            str_views(out@) == lines.take(k as int).map_values(|l: Seq<char>| dir_name_of(l)).filter(
                is_named(),
            ),
        decreases n - k,
    {
        let piece = pieces[k].as_str();
        proof {
            assert(piece@ == p[k as int]);
        }
        let line = if k + 1 < n {
            without_cr(piece)
        } else {
            String::from_str(piece)
        };
        proof {
            assert(line@ == lines[k as int]);
        }
        let name = dir_name(line.as_str());
        let ghost mapped = lines.take(k as int).map_values(|l: Seq<char>| dir_name_of(l));
        proof {
            assert(lines.take(k + 1).map_values(|l: Seq<char>| dir_name_of(l)) =~= mapped.push(
                name@,
            ));
            mapped.lemma_filter_push(name@, is_named());
        }
        if name.as_str().unicode_len() > 0 {
            let ghost before = out@;
            out.push(name);
            proof {
                assert(str_views(out@) =~= str_views(before).push(out@.last()@));
            }
        }
        k += 1;
    }
    proof {
        assert(lines.take(n as int) =~= lines);
    }
    out
}

} // verus!
