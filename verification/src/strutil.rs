//! Character-level string algorithms shared by the parser, the indexer and the
//! search engine: splitting into lines, trimming, substring search, pattern
//! replacement and decimal rendering, each against a spec-level definition.
use vstd::prelude::*;
use vstd::std_specs::iter::IteratorSpec;

verus! {

/// ASCII whitespace, the characters `trim` strips.
pub open spec fn is_space(c: char) -> bool {
    c == ' ' || c == '\t' || c == '\n' || c == '\r'
}

pub open spec fn spec_trim_start(s: Seq<char>) -> Seq<char>
    decreases s.len(),
{
    if s.len() > 0 && is_space(s[0]) {
        spec_trim_start(s.drop_first())
    } else {
        s
    }
}

pub open spec fn spec_trim_end(s: Seq<char>) -> Seq<char>
    decreases s.len(),
{
    if s.len() > 0 && is_space(s.last()) {
        spec_trim_end(s.drop_last())
    } else {
        s
    }
}

/// The sequence with leading and trailing ASCII whitespace removed.
pub open spec fn spec_trim(s: Seq<char>) -> Seq<char> {
    spec_trim_end(spec_trim_start(s))
}

/// Index of the first occurrence of `needle` in `hay`, if any.
pub open spec fn spec_find(hay: Seq<char>, needle: Seq<char>) -> Option<int>
    decreases hay.len(),
{
    if needle.len() > hay.len() {
        None
    } else if hay.subrange(0, needle.len() as int) == needle {
        Some(0)
    } else if hay.len() == 0 {
        None
    } else {
        match spec_find(hay.drop_first(), needle) {
            Some(i) => Some(i + 1),
            None => None,
        }
    }
}

/// Whether `needle` occurs in `hay` starting at `i`.
pub open spec fn match_at(hay: Seq<char>, needle: Seq<char>, i: int) -> bool {
    &&& 0 <= i
    &&& i + needle.len() <= hay.len()
    &&& hay.subrange(i, i + needle.len()) == needle
}

/// `spec_find` returns the first match position, and `None` exactly when
/// nothing matches.
pub proof fn lemma_spec_find(hay: Seq<char>, needle: Seq<char>)
    ensures
        match spec_find(hay, needle) {
            Some(i) => match_at(hay, needle, i) && (forall|j: int|
                0 <= j < i ==> !match_at(hay, needle, j)),
            None => forall|j: int| !match_at(hay, needle, j),
        },
    decreases hay.len(),
{
    if needle.len() > hay.len() {
        assert(forall|j: int| !match_at(hay, needle, j));
    } else if hay.subrange(0, needle.len() as int) == needle {
        assert(match_at(hay, needle, 0));
    } else if hay.len() == 0 {
        assert forall|j: int| !match_at(hay, needle, j) by {
            if match_at(hay, needle, j) {
                assert(j == 0);
            }
        }
    } else {
        lemma_spec_find(hay.drop_first(), needle);
        let tail = hay.drop_first();
        assert forall|j: int| 1 <= j && match_at(hay, needle, j) implies match_at(
            tail,
            needle,
            j - 1,
        ) by {
            let n = needle.len() as int;
            assert forall|k: int| 0 <= k < n implies tail.subrange(j - 1, j - 1 + n)[k]
                == needle[k] by {
                assert(tail[j - 1 + k] == hay[j + k]);
                assert(hay.subrange(j, j + n)[k] == hay[j + k]);
            }
            assert(tail.subrange(j - 1, j - 1 + n) =~= needle);
        }
        assert forall|j: int| match_at(tail, needle, j) implies match_at(hay, needle, j + 1) by {
            let n = needle.len() as int;
            assert forall|k: int| 0 <= k < n implies hay.subrange(j + 1, j + 1 + n)[k]
                == needle[k] by {
                assert(tail[j + k] == hay[j + 1 + k]);
                assert(tail.subrange(j, j + n)[k] == tail[j + k]);
            }
            assert(hay.subrange(j + 1, j + 1 + n) =~= needle);
        }
        assert(!match_at(hay, needle, 0));
        match spec_find(tail, needle) {
            Some(i) => {
                assert(match_at(hay, needle, i + 1));
            },
            None => {},
        }
    }
}

/// `s` with every non-overlapping occurrence of `pat` (leftmost first)
/// replaced by `rep`; the replacement itself is not rescanned.
pub open spec fn spec_replace_all(s: Seq<char>, pat: Seq<char>, rep: Seq<char>) -> Seq<char>
    decreases s.len(),
{
    if pat.len() == 0 || s.len() < pat.len() {
        s
    } else if s.subrange(0, pat.len() as int) == pat {
        rep + spec_replace_all(s.skip(pat.len() as int), pat, rep)
    } else {
        seq![s[0]] + spec_replace_all(s.drop_first(), pat, rep)
    }
}

/// A line as flushed at a newline: one `'\r'` just before the `'\n'` removed.
pub open spec fn strip_cr(l: Seq<char>) -> Seq<char> {
    if l.len() > 0 && l.last() == '\r' {
        l.drop_last()
    } else {
        l
    }
}

pub open spec fn spec_lines_acc(s: Seq<char>, cur: Seq<char>) -> Seq<Seq<char>>
    decreases s.len(),
{
    if s.len() == 0 {
        if cur.len() == 0 {
            Seq::empty()
        } else {
            seq![cur]
        }
    } else if s[0] == '\n' {
        seq![strip_cr(cur)] + spec_lines_acc(s.drop_first(), Seq::empty())
    } else {
        spec_lines_acc(s.drop_first(), cur.push(s[0]))
    }
}

/// The lines of `s`, split at `'\n'`, a `'\r'` before the split point removed;
/// a final line ending yields no extra empty line.
pub open spec fn spec_lines(s: Seq<char>) -> Seq<Seq<char>> {
    spec_lines_acc(s, Seq::empty())
}

/// The parts joined with `'\n'` between them.
pub open spec fn spec_join_nl(parts: Seq<Seq<char>>) -> Seq<char>
    decreases parts.len(),
{
    if parts.len() == 0 {
        Seq::empty()
    } else if parts.len() == 1 {
        parts[0]
    } else {
        parts[0] + seq!['\n'] + spec_join_nl(parts.drop_first())
    }
}

/// The lines of `s`, as [`spec_lines`] gives them.
pub fn split_lines(s: &str) -> (r: Vec<String>)
    ensures
        r@.map_values(|x: String| x@) == spec_lines(s@),
{
    let chars = str_chars(s);
    let n = chars.len();
    let mut out: Vec<String> = Vec::new();
    let mut cur: Vec<char> = Vec::new();
    assert(chars@.skip(0) =~= chars@);
    assert(out@.map_values(|x: String| x@) =~= Seq::<Seq<char>>::empty());
    for i in 0..n
        invariant
            n == chars@.len(),
            chars@ == s@,
            spec_lines(s@) == out@.map_values(|x: String| x@) + spec_lines_acc(
                s@.skip(i as int),
                cur@,
            ),
    {
        let ghost old_out = out@;
        let ghost old_cur = cur@;
        proof {
            assert(s@.skip(i as int)[0] == s@[i as int]);
            assert(s@.skip(i as int).drop_first() =~= s@.skip(i + 1 as int));
        }
        let c = chars[i];
        if c == '\n' {
            if cur.len() > 0 && cur[cur.len() - 1] == '\r' {
                cur.pop();
                assert(cur@ =~= strip_cr(old_cur));
            } else {
                assert(cur@ =~= strip_cr(old_cur));
            }
            let line = chars_to_string(cur.as_slice());
            out.push(line);
            cur = Vec::new();
            proof {
                assert(out@.map_values(|x: String| x@) =~= old_out.map_values(|x: String| x@).push(
                    strip_cr(old_cur),
                ));
                assert(old_out.map_values(|x: String| x@) + (seq![strip_cr(old_cur)]
                    + spec_lines_acc(s@.skip(i + 1 as int), Seq::empty())) =~= (old_out.map_values(
                    |x: String| x@,
                ).push(strip_cr(old_cur))) + spec_lines_acc(s@.skip(i + 1 as int), Seq::empty()));
                assert(cur@ =~= Seq::<char>::empty());
            }
        } else {
            cur.push(c);
            assert(cur@ =~= old_cur.push(c));
        }
    }
    assert(s@.skip(n as int).len() == 0);
    if cur.len() > 0 {
        let ghost old_out = out@;
        let ghost old_cur = cur@;
        let line = chars_to_string(cur.as_slice());
        out.push(line);
        proof {
            assert(out@.map_values(|x: String| x@) =~= old_out.map_values(|x: String| x@).push(
                old_cur,
            ));
            assert(old_out.map_values(|x: String| x@) + seq![old_cur] =~= old_out.map_values(
                |x: String| x@,
            ).push(old_cur));
        }
    } else {
        assert(out@.map_values(|x: String| x@) + spec_lines_acc(s@.skip(n as int), cur@)
            =~= out@.map_values(|x: String| x@));
    }
    out
}

/// Joining one more part appends a separator and the part.
pub proof fn lemma_join_nl_push(parts: Seq<Seq<char>>, p: Seq<char>)
    requires
        parts.len() >= 1,
    ensures
        spec_join_nl(parts.push(p)) == spec_join_nl(parts) + seq!['\n'] + p,
    decreases parts.len(),
{
    if parts.len() == 1 {
        let q = parts.push(p);
        assert(q[0] == parts[0]);
        assert(q.drop_first() =~= seq![p]);
        assert(spec_join_nl(seq![p]) == p);
        assert(spec_join_nl(q) == q[0] + seq!['\n'] + spec_join_nl(q.drop_first()));
    } else {
        lemma_join_nl_push(parts.drop_first(), p);
        assert(parts.push(p).drop_first() =~= parts.drop_first().push(p));
        assert(parts.push(p)[0] == parts[0]);
        assert(parts[0] + seq!['\n'] + (spec_join_nl(parts.drop_first()) + seq!['\n'] + p) =~= (
        parts[0] + seq!['\n'] + spec_join_nl(parts.drop_first())) + seq!['\n'] + p);
    }
}

/// The parts joined with a newline between each two.
pub fn join_nl(parts: &Vec<String>) -> (r: String)
    ensures
        r@ == spec_join_nl(parts@.map_values(|s: String| s@)),
{
    let ghost views = parts@.map_values(|s: String| s@);
    if parts.len() == 0 {
        let r = String::new();
        assert(r@ =~= spec_join_nl(views));
        return r;
    }
    let mut r = parts[0].clone();
    let n = parts.len();
    assert(views.subrange(0, 1) =~= seq![views[0]]);
    assert(r@ == spec_join_nl(views.subrange(0, 1)));
    for i in 1..n
        invariant
            n == parts@.len(),
            views == parts@.map_values(|s: String| s@),
            1 <= i <= n,
            r@ == spec_join_nl(views.subrange(0, i as int)),
    {
        push_char(&mut r, '\n');
        r.append(parts[i].as_str());
        proof {
            lemma_join_nl_push(views.subrange(0, i as int), views[i as int]);
            assert(views.subrange(0, i as int).push(views[i as int]) =~= views.subrange(
                0,
                (i + 1) as int,
            ));
        }
    }
    assert(views.subrange(0, n as int) =~= views);
    r
}

/// Lexicographic order on character sequences, by code point — the order in
/// which a byte-wise comparison ranks their UTF-8 encodings.
pub open spec fn spec_str_le(a: Seq<char>, b: Seq<char>) -> bool
    decreases a.len(),
{
    if a.len() == 0 {
        true
    } else if b.len() == 0 {
        false
    } else if a[0] != b[0] {
        a[0] < b[0]
    } else {
        spec_str_le(a.drop_first(), b.drop_first())
    }
}

/// Decimal digits of `n`, most significant first.
pub open spec fn spec_u64_string(n: u64) -> Seq<char>
    decreases n,
{
    if n < 10 {
        seq![spec_digit_char(n as int)]
    } else {
        spec_u64_string(n / 10) + seq![spec_digit_char((n % 10) as int)]
    }
}

pub open spec fn spec_digit_char(d: int) -> char {
    if d == 0 {
        '0'
    } else if d == 1 {
        '1'
    } else if d == 2 {
        '2'
    } else if d == 3 {
        '3'
    } else if d == 4 {
        '4'
    } else if d == 5 {
        '5'
    } else if d == 6 {
        '6'
    } else if d == 7 {
        '7'
    } else if d == 8 {
        '8'
    } else {
        '9'
    }
}

/// Relies on std's `String::push`: appends one character at the end.
#[verifier::external_body]
pub fn push_char(s: &mut String, c: char)
    ensures
        final(s)@ == old(s)@ + seq![c],
{
    s.push(c);
}

/// The characters of `s` as a vector.
pub fn str_chars(s: &str) -> (v: Vec<char>)
    ensures
        v@ == s@,
{
    let mut v: Vec<char> = Vec::new();
    let mut it = s.chars();
    loop
        invariant
            s@ == v@ + it.remaining(),
            v@.len() <= s@.len(),
        ensures
            v@ == s@,
        decreases s@.len() - v@.len(),
    {
        assert(it.obeys_prophetic_iter_laws());
        let ghost pre = it.remaining();
        match it.next() {
            Some(c) => {
                v.push(c);
                assert(v@ + it.remaining() =~= s@);
            },
            None => {
                assert(pre.len() == 0);
                assert(v@ =~= s@);
                break ;
            },
        }
    }
    v
}

/// A `String` holding exactly the characters of `v`.
pub fn chars_to_string(v: &[char]) -> (s: String)
    ensures
        s@ == v@,
{
    let mut s = String::new();
    let n = v.len();
    for i in 0..n
        invariant
            n == v@.len(),
            s@ == v@.subrange(0, i as int),
    {
        push_char(&mut s, v[i]);
        assert(s@ =~= v@.subrange(0, i + 1 as int));
    }
    assert(s@ =~= v@);
    s
}

/// Character-wise string equality.
pub fn str_eq(a: &str, b: &str) -> (r: bool)
    ensures
        r == (a@ == b@),
{
    let av = str_chars(a);
    let bv = str_chars(b);
    chars_eq(&av, &bv)
}

pub fn chars_eq(a: &Vec<char>, b: &Vec<char>) -> (r: bool)
    ensures
        r == (a@ == b@),
{
    if a.len() != b.len() {
        assert(a@ != b@);
        return false;
    }
    let n = a.len();
    for i in 0..n
        invariant
            n == a@.len() == b@.len(),
            a@.subrange(0, i as int) == b@.subrange(0, i as int),
    {
        if a[i] != b[i] {
            return false;
        }
        assert(a@.subrange(0, i + 1 as int) =~= a@.subrange(0, i as int) + seq![a@[i as int]]);
        assert(b@.subrange(0, i + 1 as int) =~= b@.subrange(0, i as int) + seq![b@[i as int]]);
    }
    assert(a@.subrange(0, n as int) =~= a@);
    assert(b@.subrange(0, n as int) =~= b@);
    true
}

/// `s` with leading and trailing ASCII whitespace removed.
pub fn trim_chars(s: &Vec<char>) -> (r: Vec<char>)
    ensures
        r@ == spec_trim(s@),
{
    let mut start: usize = 0;
    let n = s.len();
    assert(s@.skip(0) =~= s@);
    while start < n && is_space_exec(s[start])
        invariant
            n == s@.len(),
            0 <= start <= n,
            spec_trim_start(s@) == spec_trim_start(s@.skip(start as int)),
        decreases n - start,
    {
        assert(s@.skip(start as int).drop_first() =~= s@.skip(start + 1 as int));
        start = start + 1;
    }
    assert(s@.skip(start as int).len() == 0 || !is_space(s@.skip(start as int)[0]));
    assert(spec_trim_start(s@) == s@.skip(start as int));
    let mut end: usize = n;
    while end > start && is_space_exec(s[end - 1])
        invariant
            n == s@.len(),
            start <= end <= n,
            spec_trim_start(s@) == s@.skip(start as int),
            spec_trim_end(s@.skip(start as int)) == spec_trim_end(
                s@.subrange(start as int, end as int),
            ),
        decreases end,
    {
        assert(s@.subrange(start as int, end as int).drop_last() =~= s@.subrange(
            start as int,
            end - 1 as int,
        ));
        assert(s@.subrange(start as int, end as int).last() == s@[end - 1]);
        end = end - 1;
    }
    let ghost mid = s@.subrange(start as int, end as int);
    assert(mid.len() == 0 || !is_space(mid.last()));
    assert(spec_trim_end(mid) == mid);
    let mut r: Vec<char> = Vec::new();
    for i in start..end
        invariant
            start <= end <= n,
            n == s@.len(),
            r@ == s@.subrange(start as int, i as int),
    {
        r.push(s[i]);
        assert(r@ =~= s@.subrange(start as int, i + 1 as int));
    }
    assert(r@ =~= spec_trim(s@));
    r
}

pub fn is_space_exec(c: char) -> (r: bool)
    ensures
        r == is_space(c),
{
    c == ' ' || c == '\t' || c == '\n' || c == '\r'
}

/// Whether `needle` occurs in `hay` starting at position `i`.
fn matches_at(hay: &Vec<char>, needle: &Vec<char>, i: usize) -> (r: bool)
    requires
        i + needle@.len() <= hay@.len(),
    ensures
        r == match_at(hay@, needle@, i as int),
{
    let m = needle.len();
    let hlen = hay.len();
    for j in 0..m
        invariant
            i + m <= hay@.len(),
            m == needle@.len(),
            hlen == hay@.len(),
            hay@.subrange(i as int, i + j as int) == needle@.subrange(0, j as int),
    {
        if hay[i + j] != needle[j] {
            assert(hay@.subrange(i as int, i + needle@.len())[j as int] == hay@[i + j]);
            return false;
        }
        assert(hay@.subrange(i as int, i + (j + 1) as int) =~= hay@.subrange(i as int, i + j as int)
            + seq![hay@[i + j]]);
        assert(needle@.subrange(0, (j + 1) as int) =~= needle@.subrange(0, j as int) + seq![
            needle@[j as int],
        ]);
    }
    assert(hay@.subrange(i as int, i + needle@.len()) =~= needle@);
    true
}

/// First occurrence of `needle` in `hay`, as `spec_find` gives it.
pub fn find_sub(hay: &Vec<char>, needle: &Vec<char>) -> (r: Option<usize>)
    ensures
        match r {
            Some(i) => spec_find(hay@, needle@) == Some(i as int),
            None => spec_find(hay@, needle@) is None,
        },
{
    proof {
        lemma_spec_find(hay@, needle@);
    }
    if needle.len() > hay.len() {
        return None;
    }
    if needle.len() == 0 {
        assert(hay@.subrange(0, 0) =~= needle@);
        assert(match_at(hay@, needle@, 0));
        return Some(0);
    }
    let last = hay.len() - needle.len();
    for i in 0..(last + 1)
        invariant
            0 < needle@.len() <= hay@.len(),
            last == hay@.len() - needle@.len(),
            forall|j: int| 0 <= j < i ==> !match_at(hay@, needle@, j),
    {
        if matches_at(hay, needle, i) {
            proof {
                lemma_spec_find(hay@, needle@);
                match spec_find(hay@, needle@) {
                    Some(f) => {
                        if f < i {
                            assert(match_at(hay@, needle@, f));
                            assert(false);
                        }
                        if f > i {
                            assert(!match_at(hay@, needle@, i as int));
                            assert(false);
                        }
                    },
                    None => {
                        assert(!match_at(hay@, needle@, i as int));
                        assert(false);
                    },
                }
            }
            return Some(i);
        }
    }
    assert forall|j: int| !match_at(hay@, needle@, j) by {
        if match_at(hay@, needle@, j) {
            assert(0 <= j <= last);
        }
    }
    None
}

/// `s` with every occurrence of `pat` replaced by `rep`.
pub fn replace_all(s: &Vec<char>, pat: &Vec<char>, rep: &Vec<char>) -> (r: Vec<char>)
    ensures
        r@ == spec_replace_all(s@, pat@, rep@),
{
    let mut r: Vec<char> = Vec::new();
    let mut i: usize = 0;
    let n = s.len();
    let m = pat.len();
    if m == 0 {
        for k in 0..n
            invariant
                n == s@.len(),
                r@ == s@.subrange(0, k as int),
            {
            r.push(s[k]);
            assert(r@ =~= s@.subrange(0, k + 1 as int));
        }
        assert(r@ =~= s@);
        assert(spec_replace_all(s@, pat@, rep@) == s@);
        return r;
    }
    assert(s@.skip(0) =~= s@);
    while i < n
        invariant
            n == s@.len(),
            m == pat@.len(),
            m > 0,
            0 <= i <= n,
            spec_replace_all(s@, pat@, rep@) == r@ + spec_replace_all(
                s@.skip(i as int),
                pat@,
                rep@,
            ),
        decreases n - i,
    {
        let rest = n - i;
        if m <= rest && matches_at(s, pat, i) {
            proof {
                let suf = s@.skip(i as int);
                assert(suf.subrange(0, m as int) =~= s@.subrange(i as int, i + m as int));
                assert(suf.skip(m as int) =~= s@.skip(i + m as int));
            }
            let mut k: usize = 0;
            let ghost r0 = r@;
            while k < rep.len()
                invariant
                    0 <= k <= rep@.len(),
                    r@ == r0 + rep@.subrange(0, k as int),
                decreases rep@.len() - k,
            {
                r.push(rep[k]);
                assert(r@ =~= r0 + rep@.subrange(0, k + 1 as int));
                k = k + 1;
            }
            assert(rep@.subrange(0, rep@.len() as int) =~= rep@);
            i = i + m;
        } else {
            proof {
                let suf = s@.skip(i as int);
                assert(suf.len() == rest);
                if m <= rest {
                    assert(suf.subrange(0, m as int) =~= s@.subrange(i as int, i + m as int));
                    assert(suf.subrange(0, m as int) != pat@);
                }
                assert(suf[0] == s@[i as int]);
                assert(suf.drop_first() =~= s@.skip(i + 1 as int));
            }
            r.push(s[i]);
            i = i + 1;
        }
    }
    proof {
        assert(s@.skip(n as int).len() == 0);
        assert(spec_replace_all(s@.skip(n as int), pat@, rep@) == s@.skip(n as int));
        assert(r@ + s@.skip(n as int) =~= r@);
    }
    r
}

/// Decimal rendering of `n`.
pub fn u64_to_string(n: u64) -> (r: String)
    ensures
        r@ == spec_u64_string(n),
    decreases n,
{
    if n < 10 {
        let mut s = String::new();
        push_char(&mut s, digit_char(n));
        assert(s@ =~= spec_u64_string(n));
        s
    } else {
        let mut s = u64_to_string(n / 10);
        push_char(&mut s, digit_char(n % 10));
        assert(s@ =~= spec_u64_string(n));
        s
    }
}

fn digit_char(d: u64) -> (c: char)
    requires
        d < 10,
    ensures
        c == spec_digit_char(d as int),
{
    if d == 0 {
        '0'
    } else if d == 1 {
        '1'
    } else if d == 2 {
        '2'
    } else if d == 3 {
        '3'
    } else if d == 4 {
        '4'
    } else if d == 5 {
        '5'
    } else if d == 6 {
        '6'
    } else if d == 7 {
        '7'
    } else if d == 8 {
        '8'
    } else {
        '9'
    }
}

} // verus!
