use vstd::prelude::*;

verus! {

/// `t` occurs in `s` starting at position `i`.
pub open spec fn occurs_at(s: Seq<char>, t: Seq<char>, i: int) -> bool {
    0 <= i && i + t.len() <= s.len() && s.subrange(i, i + t.len()) == t
}

/// `t` occurs somewhere in `s`.
pub open spec fn seq_contains(s: Seq<char>, t: Seq<char>) -> bool {
    exists|i: int| occurs_at(s, t, i)
}

/// The first position at or after `i` where `t` occurs in `s`.
pub open spec fn find_from(s: Seq<char>, t: Seq<char>, i: int) -> Option<int>
    decreases s.len() + 1 - i,
{
    if i < 0 || i + t.len() > s.len() {
        None
    } else if occurs_at(s, t, i) {
        Some(i)
    } else {
        find_from(s, t, i + 1)
    }
}

/// The first position where `t` occurs in `s`.
pub open spec fn find(s: Seq<char>, t: Seq<char>) -> Option<int> {
    find_from(s, t, 0)
}

/// `s` with every `from` written as `to`.
pub open spec fn replace_char(s: Seq<char>, from: char, to: char) -> Seq<char> {
    s.map_values(|c: char| if c == from { to } else { c })
}

/// How many times `c` occurs in `s`.
pub open spec fn count_char(s: Seq<char>, c: char) -> nat
    decreases s.len(),
{
    if s.len() == 0 {
        0
    } else {
        count_char(s.drop_last(), c) + if s.last() == c {
            1nat
        } else {
            0nat
        }
    }
}

/// `s` without the run of `c` at its start.
pub open spec fn trim_leading(s: Seq<char>, c: char) -> Seq<char>
    decreases s.len(),
{
    if s.len() > 0 && s[0] == c {
        trim_leading(s.skip(1), c)
    } else {
        s
    }
}

/// `s` without the run of `c` at its end.
pub open spec fn trim_trailing(s: Seq<char>, c: char) -> Seq<char>
    decreases s.len(),
{
    if s.len() > 0 && s.last() == c {
        trim_trailing(s.drop_last(), c)
    } else {
        s
    }
}

/// The characters of `s`, one by one.
pub fn chars_of(s: &str) -> (r: Vec<char>)
    ensures
        r@ == s@,
{
    let n = s.unicode_len();
    let mut r: Vec<char> = Vec::new();
    let mut i: usize = 0;
    while i < n
        invariant
            n == s@.len(),
            i <= n,
            r@ == s@.subrange(0, i as int),
        decreases n - i,
    {
        r.push(s.get_char(i));
        i += 1;
        proof {
            assert(r@ =~= s@.subrange(0, i as int));
        }
    }
    proof {
        assert(r@ =~= s@);
    }
    r
}

/// An owned copy of `s[from..to]`, counted in characters.
pub fn substring(s: &str, from: usize, to: usize) -> (r: String)
    requires
        from <= to <= s@.len(),
    ensures
        r@ == s@.subrange(from as int, to as int),
{
    String::from_str(s.substring_char(from, to))
}

/// Whether `t` occurs in `s` at position `i`.
pub fn occurs_at_exec(s: &Vec<char>, t: &Vec<char>, i: usize) -> (b: bool)
    requires
        i <= s@.len(),
    ensures
        b == occurs_at(s@, t@, i as int),
{
    if t.len() > s.len() - i {
        return false;
    }
    let n = s.len();
    let mut j: usize = 0;
    while j < t.len()
        invariant
            n == s@.len(),
            i + t@.len() <= s@.len(),
            j <= t@.len(),
            forall|k: int| 0 <= k < j ==> s@[i + k] == t@[k],
        decreases t@.len() - j,
    {
        if s[i + j] != t[j] {
            proof {
                assert(s@.subrange(i as int, i + t@.len())[j as int] != t@[j as int]);
            }
            return false;
        }
        j += 1;
    }
    proof {
        assert(s@.subrange(i as int, i + t@.len()) =~= t@);
    }
    true
}

/// The first position of `t` in `s`.
pub fn find_chars(s: &Vec<char>, t: &Vec<char>) -> (r: Option<usize>)
    ensures
        match r {
            Some(i) => find(s@, t@) == Some(i as int) && occurs_at(s@, t@, i as int),
            None => find(s@, t@) is None,
        },
        r is Some <==> seq_contains(s@, t@),
{
    let n = s.len();
    if t.len() > n {
        proof {
            assert forall|k: int| !occurs_at(s@, t@, k) by {}
        }
        return None;
    }
    let last = n - t.len();
    let mut i: usize = 0;
    while i < last
        invariant
            n == s@.len(),
            last + t@.len() == n,
            i <= last,
            find_from(s@, t@, 0) == find_from(s@, t@, i as int),
            forall|k: int| 0 <= k < i ==> !occurs_at(s@, t@, k),
        decreases last - i,
    {
        if occurs_at_exec(s, t, i) {
            return Some(i);
        }
        i += 1;
    }
    if occurs_at_exec(s, t, last) {
        return Some(last);
    }
    proof {
        assert(find_from(s@, t@, last + 1) is None);
        assert forall|k: int| !occurs_at(s@, t@, k) by {
            if k > last as int {
                assert(k + t@.len() > s@.len());
            }
        }
    }
    None
}

/// The first position of `t` in `s[from..]`, counted from `from`.
pub fn find_after(s: &Vec<char>, from: usize, t: &Vec<char>) -> (r: Option<usize>)
    requires
        from <= s@.len(),
    ensures
        match r {
            Some(i) => find(s@.skip(from as int), t@) == Some(i as int) && occurs_at(
                s@.skip(from as int),
                t@,
                i as int,
            ),
            None => find(s@.skip(from as int), t@) is None,
        },
{
    let mut rest: Vec<char> = Vec::new();
    let mut i: usize = from;
    while i < s.len()
        invariant
            from <= i <= s@.len(),
            rest@ == s@.subrange(from as int, i as int),
        decreases s@.len() - i,
    {
        rest.push(s[i]);
        i += 1;
        proof {
            assert(rest@ =~= s@.subrange(from as int, i as int));
        }
    }
    proof {
        assert(rest@ =~= s@.skip(from as int));
    }
    find_chars(&rest, t)
}

/// Whether `t` occurs in `s`.
pub fn contains_str(s: &str, t: &str) -> (b: bool)
    ensures
        b == seq_contains(s@, t@),
{
    let sv = chars_of(s);
    let tv = chars_of(t);
    find_chars(&sv, &tv).is_some()
}

/// Whether `s` begins with `p`.
pub fn starts_with_chars(s: &Vec<char>, p: &str) -> (b: bool)
    ensures
        b == p@.is_prefix_of(s@),
{
    let pv = chars_of(p);
    if pv.len() > s.len() {
        return false;
    }
    let r = occurs_at_exec(s, &pv, 0);
    r
}

/// Appends `s[from..to]` to `out`, with every `from_c` in it written as `to_s`.
pub fn append_replaced(
    out: &mut String,
    s: &str,
    sv: &Vec<char>,
    from: usize,
    to: usize,
    from_c: char,
    to_s: &str,
)
    requires
        sv@ == s@,
        from <= to <= s@.len(),
        to_s@.len() == 1,
    ensures
        final(out)@ == old(out)@ + replace_char(s@.subrange(from as int, to as int), from_c, to_s@[0]),
{
    let mut i: usize = from;
    while i < to
        invariant
            sv@ == s@,
            from <= i <= to <= s@.len(),
            to_s@.len() == 1,
            out@ == old(out)@ + replace_char(s@.subrange(from as int, i as int), from_c, to_s@[0]),
        decreases to - i,
    {
        if sv[i] == from_c {
            out.append(to_s);
        } else {
            out.append(s.substring_char(i, i + 1));
        }
        proof {
            assert(s@.subrange(from as int, i + 1) =~= s@.subrange(from as int, i as int).push(
                s@[i as int],
            ));
            assert(replace_char(s@.subrange(from as int, i + 1), from_c, to_s@[0]) =~= replace_char(
                s@.subrange(from as int, i as int),
                from_c,
                to_s@[0],
            ).push(if s@[i as int] == from_c { to_s@[0] } else { s@[i as int] }));
            assert(out@ =~= old(out)@ + replace_char(
                s@.subrange(from as int, i + 1),
                from_c,
                to_s@[0],
            ));
        }
        i += 1;
    }
}

} // verus!

verus! {

/// Whether `s` holds exactly the characters of `p`.
pub fn equals_str(s: &Vec<char>, p: &str) -> (b: bool)
    ensures
        b == (s@ == p@),
{
    let pre = starts_with_chars(s, p);
    let same_len = s.len() == p.unicode_len();
    proof {
        if pre && same_len {
            assert(s@ =~= p@);
        }
    }
    pre && same_len
}

} // verus!

verus! {

/// Two sequences that differ in their first character: neither is the other,
/// nor begins the other.
pub proof fn lemma_first_char_differs(a: Seq<char>, k: Seq<char>)
    requires
        a.len() > 0,
        k.len() > 0,
        a[0] != k[0],
    ensures
        a != k,
        !a.is_prefix_of(k),
{
    if a.is_prefix_of(k) {
        assert(k.subrange(0, a.len() as int)[0] == k[0]);
    }
}

} // verus!

verus! {

/// The pieces of `s` between the occurrences of `c` (one more piece than
/// there are occurrences; pieces may be empty).
pub open spec fn split_on(s: Seq<char>, c: char) -> Seq<Seq<char>>
    decreases s.len(),
{
    if s.len() == 0 {
        seq![Seq::empty()]
    } else {
        let p = split_on(s.drop_last(), c);
        if s.last() == c {
            p.push(Seq::empty())
        } else {
            p.update(p.len() - 1, p.last().push(s.last()))
        }
    }
}

/// There is always at least one piece.
pub proof fn lemma_split_on_nonempty(s: Seq<char>, c: char)
    ensures
        split_on(s, c).len() >= 1,
    decreases s.len(),
{
    if s.len() > 0 {
        lemma_split_on_nonempty(s.drop_last(), c);
    }
}

/// The pieces of `s` between its newlines.
pub fn split_lines(s: &str) -> (r: Vec<String>)
    ensures
        r@.map_values(|x: String| x@) == split_on(s@, '\n'),
{
    let sv = chars_of(s);
    let n = sv.len();
    let mut out: Vec<String> = Vec::new();
    let mut start: usize = 0;
    let mut i: usize = 0;
    proof {
        assert(s@.take(0) =~= Seq::<char>::empty());
        assert(out@.map_values(|x: String| x@) =~= Seq::<Seq<char>>::empty());
    }
    while i < n
        invariant
            n == sv@.len(),
            sv@ == s@,
            start <= i <= n,
            split_on(s@.take(i as int), '\n').len() >= 1,
            out@.map_values(|x: String| x@) == split_on(s@.take(i as int), '\n').drop_last(),
            s@.subrange(start as int, i as int) == split_on(s@.take(i as int), '\n').last(),
        decreases n - i,
    {
        let ghost prev = split_on(s@.take(i as int), '\n');
        proof {
            assert(s@.take(i + 1).drop_last() =~= s@.take(i as int));
            assert(s@.take(i + 1).last() == s@[i as int]);
            lemma_split_on_nonempty(s@.take(i + 1), '\n');
        }
        if sv[i] == '\n' {
            let ghost before = out@;
            out.push(substring(s, start, i));
            proof {
                assert(out@.map_values(|x: String| x@) =~= before.map_values(|x: String| x@).push(
                    s@.subrange(start as int, i as int),
                ));
                assert(prev.push(Seq::<char>::empty()).drop_last() =~= prev);
                assert(prev =~= prev.drop_last().push(prev.last()));
                assert(s@.subrange(i + 1, i + 1) =~= Seq::<char>::empty());
            }
            start = i + 1;
        } else {
            proof {
                let q = prev.update(prev.len() - 1, prev.last().push(s@[i as int]));
                assert(q.drop_last() =~= prev.drop_last());
                assert(s@.subrange(start as int, i + 1) =~= prev.last().push(s@[i as int]));
            }
        }
        i += 1;
    }
    proof {
        assert(s@.take(n as int) =~= s@);
    }
    let ghost before = out@;
    out.push(substring(s, start, n));
    proof {
        let p = split_on(s@, '\n');
        assert(out@.map_values(|x: String| x@) =~= before.map_values(|x: String| x@).push(
            s@.subrange(start as int, n as int),
        ));
        assert(p =~= p.drop_last().push(p.last()));
    }
    out
}

/// Drops one trailing `\r`.
pub open spec fn strip_cr(s: Seq<char>) -> Seq<char> {
    if s.len() > 0 && s.last() == '\r' {
        s.drop_last()
    } else {
        s
    }
}

/// The lines of a text, as `str::lines` gives them: pieces between newlines,
/// each ended by `\n` losing a `\r` before it. The last piece stays as it is
/// (an empty last piece is no line, which callers that skip empty lines may ignore).
pub open spec fn text_lines(s: Seq<char>) -> Seq<Seq<char>> {
    let p = split_on(s, '\n');
    p.drop_last().map_values(|l: Seq<char>| strip_cr(l)).push(p.last())
}

} // verus!
