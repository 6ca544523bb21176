//! The two search engines: the local fuzzy filter over loaded project and
//! session lists, and the global substring search over indexed prompts with
//! its match highlighting. The fuzzy matcher and Unicode lowercasing are
//! called through trusted wrappers; every decision made on their results is
//! verified.
use vstd::prelude::*;
use crate::models::{
    ProjectInfo, SessionInfo, SearchResult, SearchResultV, TimeFilter, clone_project_info,
    clone_session_info,
};
use crate::strutil::{spec_find, find_sub, str_chars, match_at, lemma_spec_find};

verus! {

/// What the fuzzy matcher scores a candidate against a pattern; a function of
/// the two texts alone.
pub uninterp spec fn fuzzy_score(choice: Seq<char>, pattern: Seq<char>) -> Option<i64>;

/// Relies on fuzzy_matcher's `SkimMatcherV2` in its default configuration: an
/// order-preserving subsequence match with a score, `None` when the pattern
/// does not match; the result depends on the two texts alone.
#[verifier::external_body]
pub fn fuzzy_match(choice: &str, pattern: &str) -> (r: Option<i64>)
    ensures
        r == fuzzy_score(choice@, pattern@),
{
    let matcher = fuzzy_matcher::skim::SkimMatcherV2::default();
    fuzzy_matcher::FuzzyMatcher::fuzzy_match(&matcher, choice, pattern)
}

/// What lowercasing a text yields; a function of its characters alone.
pub uninterp spec fn lower_of(s: Seq<char>) -> Seq<char>;

/// Relies on `str::to_lowercase`: the Unicode lowercase of the text,
/// depending on its characters alone.
#[verifier::external_body]
pub fn to_lowercase(s: &str) -> (r: String)
    ensures
        r@ == lower_of(s@),
{
    s.to_lowercase()
}

/// `a - b`, clamped into the `i64` range.
pub open spec fn spec_sat_sub(a: i64, b: i64) -> int {
    let d = a - b;
    if d > i64::MAX as int {
        i64::MAX as int
    } else if d < i64::MIN as int {
        i64::MIN as int
    } else {
        d
    }
}

pub fn sat_sub_i64(a: i64, b: i64) -> (r: i64)
    ensures
        r as int == spec_sat_sub(a, b),
{
    if b >= 0 {
        if a >= i64::MIN + b {
            a - b
        } else {
            i64::MIN
        }
    } else {
        if a <= i64::MAX + b {
            a - b
        } else {
            i64::MAX
        }
    }
}

/// Whether a session's timestamp falls inside the filter's window, measured
/// back from `now` in milliseconds; sessions without a timestamp pass only
/// the unrestricted filter.
pub open spec fn spec_time_ok(s: SessionInfo, tf: TimeFilter, now: i64) -> bool {
    match tf {
        TimeFilter::All => true,
        TimeFilter::Yesterday => match s@.timestamp {
            Some(t) => spec_sat_sub(now, t) < 86400000,
            None => false,
        },
        TimeFilter::Week => match s@.timestamp {
            Some(t) => spec_sat_sub(now, t) < 604800000,
            None => false,
        },
        TimeFilter::Month => match s@.timestamp {
            Some(t) => spec_sat_sub(now, t) < 2592000000,
            None => false,
        },
    }
}

/// Whether the fuzzy query retains a session: any one of its preview, summary
/// and branch may match.
pub open spec fn spec_session_query_ok(s: SessionInfo, query: Seq<char>) -> bool {
    query.len() == 0 || fuzzy_score(s@.preview, query) is Some || fuzzy_score(s@.summary, query)
        is Some || fuzzy_score(s@.git_branch, query) is Some
}

/// The sessions that pass both the time window and the fuzzy query, in order.
pub open spec fn spec_filter_sessions(
    ss: Seq<SessionInfo>,
    tf: TimeFilter,
    query: Seq<char>,
    now: i64,
) -> Seq<SessionInfo>
    decreases ss.len(),
{
    if ss.len() == 0 {
        Seq::empty()
    } else {
        let rest = spec_filter_sessions(ss.drop_first(), tf, query, now);
        if spec_time_ok(ss[0], tf, now) && spec_session_query_ok(ss[0], query) {
            seq![ss[0]] + rest
        } else {
            rest
        }
    }
}

fn time_ok(s: &SessionInfo, tf: TimeFilter, now: i64) -> (r: bool)
    ensures
        r == spec_time_ok(*s, tf, now),
{
    match tf {
        TimeFilter::All => true,
        TimeFilter::Yesterday => match s.timestamp {
            Some(t) => sat_sub_i64(now, t) < 86400000,
            None => false,
        },
        TimeFilter::Week => match s.timestamp {
            Some(t) => sat_sub_i64(now, t) < 604800000,
            None => false,
        },
        TimeFilter::Month => match s.timestamp {
            Some(t) => sat_sub_i64(now, t) < 2592000000,
            None => false,
        },
    }
}

/// Filter a session list by the time window and the fuzzy query.
pub fn filter_sessions(
    sessions: &Vec<SessionInfo>,
    tf: TimeFilter,
    query: &str,
    now_millis: i64,
) -> (r: Vec<SessionInfo>)
    ensures
        r@ == spec_filter_sessions(sessions@, tf, query@, now_millis),
{
    let mut out: Vec<SessionInfo> = Vec::new();
    let n = sessions.len();
    assert(sessions@.skip(0) =~= sessions@);
    for i in 0..n
        invariant
            n == sessions@.len(),
            spec_filter_sessions(sessions@, tf, query@, now_millis) == out@
                + spec_filter_sessions(sessions@.skip(i as int), tf, query@, now_millis),
    {
        proof {
            assert(sessions@.skip(i as int)[0] == sessions@[i as int]);
            assert(sessions@.skip(i as int).drop_first() =~= sessions@.skip(i + 1 as int));
        }
        let s = &sessions[i];
        let keep = if time_ok(s, tf, now_millis) {
            if query.is_empty() {
                true
            } else {
                fuzzy_match(s.preview.as_str(), query).is_some() || fuzzy_match(
                    s.summary.as_str(),
                    query,
                ).is_some() || fuzzy_match(s.git_branch.as_str(), query).is_some()
            }
        } else {
            false
        };
        if keep {
            let c = clone_session_info(s);
            out.push(c);
            assert(out@ =~= out@.drop_last().push(sessions@[i as int]));
            assert(out@.drop_last() + (seq![sessions@[i as int]] + spec_filter_sessions(
                sessions@.skip(i + 1 as int),
                tf,
                query@,
                now_millis,
            )) =~= out@ + spec_filter_sessions(
                sessions@.skip(i + 1 as int),
                tf,
                query@,
                now_millis,
            ));
        }
    }
    assert(sessions@.skip(n as int).len() == 0);
    assert(out@ + spec_filter_sessions(sessions@.skip(n as int), tf, query@, now_millis) =~= out@);
    out
}

/// The projects whose decoded path the fuzzy query matches, in order; an
/// empty query retains everything.
pub open spec fn spec_filter_projects(ps: Seq<ProjectInfo>, query: Seq<char>) -> Seq<ProjectInfo>
    decreases ps.len(),
{
    if ps.len() == 0 {
        Seq::empty()
    } else {
        let rest = spec_filter_projects(ps.drop_first(), query);
        if query.len() == 0 || fuzzy_score(ps[0]@.original_path, query) is Some {
            seq![ps[0]] + rest
        } else {
            rest
        }
    }
}

/// Filter the project list by a fuzzy match on the decoded path.
pub fn filter_projects(projects: &Vec<ProjectInfo>, query: &str) -> (r: Vec<ProjectInfo>)
    ensures
        r@ == spec_filter_projects(projects@, query@),
{
    let mut out: Vec<ProjectInfo> = Vec::new();
    let n = projects.len();
    assert(projects@.skip(0) =~= projects@);
    for i in 0..n
        invariant
            n == projects@.len(),
            spec_filter_projects(projects@, query@) == out@ + spec_filter_projects(
                projects@.skip(i as int),
                query@,
            ),
    {
        proof {
            assert(projects@.skip(i as int)[0] == projects@[i as int]);
            assert(projects@.skip(i as int).drop_first() =~= projects@.skip(i + 1 as int));
        }
        let p = &projects[i];
        let keep = if query.is_empty() {
            true
        } else {
            fuzzy_match(p.original_path.as_str(), query).is_some()
        };
        if keep {
            let c = clone_project_info(p);
            out.push(c);
            assert(out@ =~= out@.drop_last().push(projects@[i as int]));
            assert(out@.drop_last() + (seq![projects@[i as int]] + spec_filter_projects(
                projects@.skip(i + 1 as int),
                query@,
            )) =~= out@ + spec_filter_projects(projects@.skip(i + 1 as int), query@));
        }
    }
    assert(projects@.skip(n as int).len() == 0);
    assert(out@ + spec_filter_projects(projects@.skip(n as int), query@) =~= out@);
    out
}

/// The first prompt whose lowercase holds the lowercased query, with the
/// match's character position.
pub open spec fn spec_first_prompt_match(prompts: Seq<Seq<char>>, lq: Seq<char>) -> Option<
    (int, int),
>
    decreases prompts.len(),
{
    if prompts.len() == 0 {
        None
    } else {
        match spec_find(lower_of(prompts[0]), lq) {
            Some(pos) => Some((0int, pos)),
            None => match spec_first_prompt_match(prompts.drop_first(), lq) {
                Some(ip) => Some((ip.0 + 1, ip.1)),
                None => None,
            },
        }
    }
}

/// How one indexed session answers a non-empty query: its first prompt with a
/// substring match becomes the highlighted best match; failing that, a match
/// on the path or branch keeps the session with no highlight; else it is
/// dropped.
pub open spec fn spec_global_entry(r: SearchResultV, lq: Seq<char>) -> Option<SearchResultV> {
    match spec_first_prompt_match(r.prompts, lq) {
        Some(ip) => Some(
            SearchResultV {
                best_match_prompt: r.prompts[ip.0],
                best_match_indices: Seq::new(lq.len(), |k: int| (ip.1 + k) as usize),
                ..r
            },
        ),
        None => {
            if spec_find(lower_of(r.project_path), lq) is Some || spec_find(
                lower_of(r.git_branch),
                lq,
            ) is Some {
                Some(
                    SearchResultV {
                        best_match_prompt: if r.prompts.len() > 0 {
                            r.prompts[0]
                        } else {
                            Seq::empty()
                        },
                        best_match_indices: Seq::empty(),
                        ..r
                    },
                )
            } else {
                None
            }
        },
    }
}

/// The sessions a non-empty query retains, in stored order, each with its
/// best match filled in.
pub open spec fn spec_global_filter(rs: Seq<SearchResultV>, lq: Seq<char>) -> Seq<SearchResultV>
    decreases rs.len(),
{
    if rs.len() == 0 {
        Seq::empty()
    } else {
        let rest = spec_global_filter(rs.drop_first(), lq);
        match spec_global_entry(rs[0], lq) {
            Some(e) => seq![e] + rest,
            None => rest,
        }
    }
}

/// One result rebuilt with the given best match.
fn result_with_best(r: &SearchResult, best_prompt: String, indices: Vec<usize>) -> (c: SearchResult)
    ensures
        c@ == (SearchResultV { best_match_prompt: best_prompt@, best_match_indices: indices@, ..r@ }),
{
    let mut prompts: Vec<String> = Vec::new();
    let n = r.prompts.len();
    for i in 0..n
        invariant
            n == r.prompts@.len(),
            prompts@.len() == i,
            forall|j: int| 0 <= j < i ==> (#[trigger] prompts@[j])@ == r.prompts@[j]@,
    {
        prompts.push(r.prompts[i].clone());
    }
    let c = SearchResult {
        session_id: r.session_id.clone(),
        project_path: r.project_path.clone(),
        dir_name: r.dir_name.clone(),
        git_branch: r.git_branch.clone(),
        created_at: r.created_at.clone(),
        prompts,
        best_match_prompt: best_prompt,
        best_match_indices: indices,
    };
    proof {
        assert(c@.prompts =~= r@.prompts);
        assert(c@ =~= (SearchResultV {
            best_match_prompt: c.best_match_prompt@,
            best_match_indices: c.best_match_indices@,
            ..r@
        }));
    }
    c
}

/// The first prompt whose lowercase holds the query, with the match position.
fn first_prompt_match_exec(prompts: &Vec<String>, lq_chars: &Vec<char>) -> (r: Option<
    (usize, usize),
>)
    ensures
        match r {
            Some(jp) => spec_first_prompt_match(
                prompts@.map_values(|p: String| p@),
                lq_chars@,
            ) == Some((jp.0 as int, jp.1 as int)) && jp.1 + lq_chars@.len() <= usize::MAX,
            None => spec_first_prompt_match(prompts@.map_values(|p: String| p@), lq_chars@)
                is None,
        },
{
    let ghost pvs = prompts@.map_values(|p: String| p@);
    let m = prompts.len();
    proof {
        assert(pvs.skip(0) =~= pvs);
    }
    for j in 0..m
        invariant
            m == prompts@.len(),
            pvs == prompts@.map_values(|p: String| p@),
            pvs.len() == m,
            spec_first_prompt_match(pvs, lq_chars@) == (match spec_first_prompt_match(
                pvs.skip(j as int),
                lq_chars@,
            ) {
                Some(ip) => Some((ip.0 + j as int, ip.1)),
                None => None::<(int, int)>,
            }),
    {
        proof {
            assert(pvs.skip(j as int)[0] == pvs[j as int]);
            assert(pvs.skip(j as int).drop_first() =~= pvs.skip(j + 1 as int));
        }
        let lower = to_lowercase(prompts[j].as_str());
        let lower_chars = str_chars(lower.as_str());
        match find_sub(&lower_chars, lq_chars) {
            Some(pos) => {
                let hl = lower_chars.len();
                proof {
                    lemma_spec_find(lower_chars@, lq_chars@);
                    assert(match_at(lower_chars@, lq_chars@, pos as int));
                    assert(pos + lq_chars@.len() <= hl);
                }
                return Some((j, pos));
            },
            None => {},
        }
    }
    assert(pvs.skip(m as int).len() == 0);
    None
}

/// Run a non-empty global query over the indexed sessions. The query is
/// lowercased once; each session's first substring match in its prompts (or,
/// failing that, in its path or branch) decides.
pub fn global_filter(results: &Vec<SearchResult>, query: &str) -> (r: Vec<SearchResult>)
    ensures
        r@.map_values(|x: SearchResult| x@) == spec_global_filter(
            results@.map_values(|x: SearchResult| x@),
            lower_of(query@),
        ),
{
    let lq = to_lowercase(query);
    let lq_chars = str_chars(lq.as_str());
    let ghost rvs = results@.map_values(|x: SearchResult| x@);
    let mut out: Vec<SearchResult> = Vec::new();
    let n = results.len();
    proof {
        assert(rvs.skip(0) =~= rvs);
        assert(out@.map_values(|x: SearchResult| x@) =~= Seq::<SearchResultV>::empty());
    }
    for i in 0..n
        invariant
            n == results@.len(),
            rvs == results@.map_values(|x: SearchResult| x@),
            rvs.len() == n,
            lq@ == lower_of(query@),
            lq_chars@ == lq@,
            spec_global_filter(rvs, lq@) == out@.map_values(|x: SearchResult| x@)
                + spec_global_filter(rvs.skip(i as int), lq@),
    {
        proof {
            assert(rvs.skip(i as int)[0] == rvs[i as int]);
            assert(rvs.skip(i as int).drop_first() =~= rvs.skip(i + 1 as int));
        }
        let ghost old_out = out@;
        let r = &results[i];
        proof {
            assert(rvs[i as int].prompts =~= r.prompts@.map_values(|p: String| p@));
        }
        let found = first_prompt_match_exec(&r.prompts, &lq_chars);
        match found {
            Some(jp) => {
                let (j, pos) = jp;
                let ghost fpm = spec_first_prompt_match(rvs[i as int].prompts, lq@);
                assert(fpm == Some((j as int, pos as int)));
                proof {
                    lemma_first_prompt_match(rvs[i as int].prompts, lq@);
                    lemma_spec_find(lower_of(rvs[i as int].prompts[j as int]), lq@);
                }
                let best_prompt = r.prompts[j].clone();
                let qlen = lq_chars.len();
                let mut indices: Vec<usize> = Vec::new();
                for k in 0..qlen
                    invariant
                        qlen == lq@.len(),
                        pos + qlen <= usize::MAX,
                        indices@.len() == k,
                        forall|t: int| 0 <= t < k ==> (#[trigger] indices@[t]) == (pos + t) as usize,
                {
                    indices.push(pos + k);
                }
                let c = result_with_best(r, best_prompt, indices);
                out.push(c);
                proof {
                    assert(indices@ =~= Seq::new(lq@.len(), |k: int| (fpm.unwrap().1 + k) as usize));
                    assert(out@.last()@ =~= spec_global_entry(rvs[i as int], lq@).unwrap());
                    assert(out@.map_values(|x: SearchResult| x@) =~= old_out.map_values(
                        |x: SearchResult| x@,
                    ).push(out@.last()@));
                    assert(old_out.map_values(|x: SearchResult| x@) + (seq![out@.last()@]
                        + spec_global_filter(rvs.skip(i + 1 as int), lq@)) =~= (old_out.map_values(
                        |x: SearchResult| x@,
                    ).push(out@.last()@)) + spec_global_filter(rvs.skip(i + 1 as int), lq@));
                }
            },
            None => {
                proof {
                    assert(spec_first_prompt_match(rvs[i as int].prompts, lq@) is None);
                }
                let lower_path = to_lowercase(r.project_path.as_str());
                let lower_branch = to_lowercase(r.git_branch.as_str());
                let path_chars = str_chars(lower_path.as_str());
                let branch_chars = str_chars(lower_branch.as_str());
                let hit = find_sub(&path_chars, &lq_chars).is_some() || find_sub(
                    &branch_chars,
                    &lq_chars,
                ).is_some();
                if hit {
                    let best_prompt = if r.prompts.len() > 0 {
                        r.prompts[0].clone()
                    } else {
                        String::new()
                    };
                    let indices: Vec<usize> = Vec::new();
                    let c = result_with_best(r, best_prompt, indices);
                    out.push(c);
                    proof {
                        assert(out@.last()@ =~= spec_global_entry(rvs[i as int], lq@).unwrap());
                        assert(out@.map_values(|x: SearchResult| x@) =~= old_out.map_values(
                            |x: SearchResult| x@,
                        ).push(out@.last()@));
                        assert(old_out.map_values(|x: SearchResult| x@) + (seq![out@.last()@]
                            + spec_global_filter(rvs.skip(i + 1 as int), lq@)) =~= (
                        old_out.map_values(|x: SearchResult| x@).push(out@.last()@))
                            + spec_global_filter(rvs.skip(i + 1 as int), lq@));
                    }
                } else {
                    proof {
                        assert(spec_global_entry(rvs[i as int], lq@) is None);
                    }
                }
            },
        }
    }
    proof {
        assert(rvs.skip(n as int).len() == 0);
        assert(out@.map_values(|x: SearchResult| x@) + spec_global_filter(rvs.skip(n as int), lq@)
            =~= out@.map_values(|x: SearchResult| x@));
    }
    out
}

/// Whether two results describe the same indexed session: equal in everything
/// but the query-dependent best match.
pub open spec fn same_session(a: SearchResultV, b: SearchResultV) -> bool {
    &&& a.session_id == b.session_id
    &&& a.project_path == b.project_path
    &&& a.dir_name == b.dir_name
    &&& a.git_branch == b.git_branch
    &&& a.created_at == b.created_at
    &&& a.prompts == b.prompts
}

/// Every filtered entry comes from some unfiltered session.
proof fn lemma_filtered_from(rs: Seq<SearchResultV>, lq: Seq<char>, k: int)
    requires
        0 <= k < spec_global_filter(rs, lq).len(),
    ensures
        exists|i: int|
            0 <= i < rs.len() && spec_global_entry(#[trigger] rs[i], lq) == Some(
                spec_global_filter(rs, lq)[k],
            ),
    decreases rs.len(),
{
    if rs.len() > 0 {
        let rest = spec_global_filter(rs.drop_first(), lq);
        match spec_global_entry(rs[0], lq) {
            Some(e) => {
                if k == 0 {
                    assert(spec_global_entry(rs[0], lq) == Some(spec_global_filter(rs, lq)[0]));
                } else {
                    lemma_filtered_from(rs.drop_first(), lq, k - 1);
                    let i = choose|i: int|
                        0 <= i < rs.drop_first().len() && spec_global_entry(
                            #[trigger] rs.drop_first()[i],
                            lq,
                        ) == Some(rest[k - 1]);
                    assert(rs.drop_first()[i] == rs[i + 1]);
                    assert(spec_global_filter(rs, lq)[k] == rest[k - 1]);
                }
            },
            None => {
                lemma_filtered_from(rs.drop_first(), lq, k);
                let i = choose|i: int|
                    0 <= i < rs.drop_first().len() && spec_global_entry(
                        #[trigger] rs.drop_first()[i],
                        lq,
                    ) == Some(rest[k]);
                assert(rs.drop_first()[i] == rs[i + 1]);
            },
        }
    }
}

/// The global search result set is a subset of the unfiltered set: every
/// result of a query is one of the given sessions, unchanged in everything
/// but its computed best match.
pub proof fn lemma_global_search_subset(rs: Seq<SearchResultV>, lq: Seq<char>)
    ensures
        forall|k: int|
            0 <= k < spec_global_filter(rs, lq).len() ==> exists|i: int|
                0 <= i < rs.len() && same_session(
                    #[trigger] spec_global_filter(rs, lq)[k],
                    rs[i],
                ),
{
    assert forall|k: int| 0 <= k < spec_global_filter(rs, lq).len() implies exists|i: int|
        0 <= i < rs.len() && same_session(#[trigger] spec_global_filter(rs, lq)[k], rs[i]) by {
        lemma_filtered_from(rs, lq, k);
        let i = choose|i: int|
            0 <= i < rs.len() && spec_global_entry(#[trigger] rs[i], lq) == Some(
                spec_global_filter(rs, lq)[k],
            );
        assert(same_session(spec_global_filter(rs, lq)[k], rs[i]));
    }
}

/// A first-prompt match points at a real prompt and a real occurrence.
proof fn lemma_first_prompt_match(prompts: Seq<Seq<char>>, lq: Seq<char>)
    ensures
        match spec_first_prompt_match(prompts, lq) {
            Some(ip) => 0 <= ip.0 < prompts.len() && spec_find(lower_of(prompts[ip.0]), lq)
                == Some(ip.1),
            None => true,
        },
    decreases prompts.len(),
{
    if prompts.len() > 0 {
        lemma_first_prompt_match(prompts.drop_first(), lq);
        match spec_first_prompt_match(prompts, lq) {
            Some(ip) => {
                if spec_find(lower_of(prompts[0]), lq) is None {
                    assert(prompts.drop_first()[ip.0 - 1] == prompts[ip.0]);
                }
            },
            None => {},
        }
    }
}

/// The highlight invariant: when a result carries match indices, they are
/// exactly one contiguous ascending run; within the lowercased best prompt
/// they are valid offsets and select exactly the lowercased query; and they
/// are valid offsets into the prompt itself whenever lowercasing preserves
/// its length.
pub proof fn lemma_global_search_highlight(rs: Seq<SearchResultV>, lq: Seq<char>, k: int)
    requires
        0 <= k < spec_global_filter(rs, lq).len(),
        spec_global_filter(rs, lq)[k].best_match_indices.len() > 0,
        lower_of(spec_global_filter(rs, lq)[k].best_match_prompt).len() <= usize::MAX,
    ensures
        ({
            let e = spec_global_filter(rs, lq)[k];
            let first = e.best_match_indices[0] as int;
            &&& e.best_match_indices.len() == lq.len()
            &&& forall|j: int|
                0 <= j < lq.len() ==> #[trigger] e.best_match_indices[j] == first + j
            &&& first + lq.len() <= lower_of(e.best_match_prompt).len()
            &&& lower_of(e.best_match_prompt).subrange(first, first + lq.len()) == lq
            &&& lower_of(e.best_match_prompt).len() == e.best_match_prompt.len() ==> forall|j: int|
                0 <= j < lq.len() ==> (#[trigger] e.best_match_indices[j]) < e.best_match_prompt.len()
        }),
{
    lemma_filtered_from(rs, lq, k);
    let e = spec_global_filter(rs, lq)[k];
    let i = choose|i: int|
        0 <= i < rs.len() && spec_global_entry(#[trigger] rs[i], lq) == Some(
            spec_global_filter(rs, lq)[k],
        );
    let r = rs[i];
    lemma_first_prompt_match(r.prompts, lq);
    match spec_first_prompt_match(r.prompts, lq) {
        Some(ip) => {
            lemma_spec_find(lower_of(r.prompts[ip.0]), lq);
            assert(match_at(lower_of(r.prompts[ip.0]), lq, ip.1));
            assert(e.best_match_prompt == r.prompts[ip.0]);
            assert(e.best_match_indices == Seq::new(lq.len(), |t: int| (ip.1 + t) as usize));
            assert(e.best_match_indices[0] == (ip.1 + 0) as usize);
            assert(ip.1 + lq.len() <= lower_of(e.best_match_prompt).len());
            assert forall|j: int| 0 <= j < lq.len() implies #[trigger] e.best_match_indices[j]
                == e.best_match_indices[0] as int + j by {
                assert(e.best_match_indices[j] == (ip.1 + j) as usize);
            }
        },
        None => {
            assert(e.best_match_indices.len() == 0);
        },
    }
}

/// An empty query retains every project unchanged.
pub proof fn lemma_filter_projects_empty(ps: Seq<ProjectInfo>, query: Seq<char>)
    requires
        query.len() == 0,
    ensures
        spec_filter_projects(ps, query) == ps,
    decreases ps.len(),
{
    if ps.len() > 0 {
        lemma_filter_projects_empty(ps.drop_first(), query);
        assert(spec_filter_projects(ps, query) =~= ps);
    } else {
        assert(spec_filter_projects(ps, query) =~= ps);
    }
}

/// One run of consecutive characters of a snippet, all highlighted or all
/// plain.
pub struct SnippetRun {
    pub text: String,
    pub matched: bool,
}

/// A bounded window of a matched prompt: its runs in order, with a marker at
/// either side where the window cuts the prompt off.
pub struct Snippet {
    pub leading_ellipsis: bool,
    pub runs: Vec<SnippetRun>,
    pub trailing_ellipsis: bool,
}

/// Where the window starts: centered on the midpoint of the first and last
/// match, clamped so it never leaves the prompt.
pub open spec fn spec_snip_start(prompt: Seq<char>, indices: Seq<usize>, max_width: int) -> int {
    if indices.len() == 0 || prompt.len() == 0 {
        0
    } else {
        let center = (indices[0] + indices.last()) / 2;
        let half = max_width / 2;
        if center > half {
            let cap = if prompt.len() >= max_width {
                prompt.len() - max_width
            } else {
                0
            };
            if center - half < cap {
                center - half
            } else {
                cap
            }
        } else {
            0
        }
    }
}

pub open spec fn spec_snip_end(prompt: Seq<char>, indices: Seq<usize>, max_width: int) -> int {
    let start = spec_snip_start(prompt, indices, max_width);
    if start + max_width < prompt.len() {
        start + max_width
    } else {
        prompt.len() as int
    }
}

/// Each window character with its highlight flag.
pub open spec fn spec_snip_chars(prompt: Seq<char>, indices: Seq<usize>, max_width: int) -> Seq<
    (char, bool),
> {
    let start = spec_snip_start(prompt, indices, max_width);
    let end = spec_snip_end(prompt, indices, max_width);
    Seq::new((end - start) as nat, |k: int| (prompt[start + k], indices.contains((start + k) as usize)))
}

/// The characters of the runs, flattened in order with their flags.
pub open spec fn spec_flat_runs(runs: Seq<(Seq<char>, bool)>) -> Seq<(char, bool)>
    decreases runs.len(),
{
    if runs.len() == 0 {
        Seq::empty()
    } else {
        Seq::new(runs[0].0.len(), |k: int| (runs[0].0[k], runs[0].1)) + spec_flat_runs(
            runs.drop_first(),
        )
    }
}

proof fn lemma_flat_runs_push(runs: Seq<(Seq<char>, bool)>, r: (Seq<char>, bool))
    ensures
        spec_flat_runs(runs.push(r)) == spec_flat_runs(runs) + Seq::new(
            r.0.len(),
            |k: int| (r.0[k], r.1),
        ),
    decreases runs.len(),
{
    if runs.len() == 0 {
        assert(runs.push(r)[0] == r);
        assert(runs.push(r).drop_first() =~= Seq::<(Seq<char>, bool)>::empty());
        assert(spec_flat_runs(Seq::<(Seq<char>, bool)>::empty()) =~= Seq::<(char, bool)>::empty());
        assert(spec_flat_runs(runs.push(r)) =~= Seq::new(r.0.len(), |k: int| (r.0[k], r.1)));
        assert(spec_flat_runs(runs) + Seq::new(r.0.len(), |k: int| (r.0[k], r.1)) =~= Seq::new(
            r.0.len(),
            |k: int| (r.0[k], r.1),
        ));
    } else {
        lemma_flat_runs_push(runs.drop_first(), r);
        assert(runs.push(r).drop_first() =~= runs.drop_first().push(r));
        assert(runs.push(r)[0] == runs[0]);
        assert(Seq::new(runs[0].0.len(), |k: int| (runs[0].0[k], runs[0].1)) + (spec_flat_runs(
            runs.drop_first(),
        ) + Seq::new(r.0.len(), |k: int| (r.0[k], r.1))) =~= (Seq::new(
            runs[0].0.len(),
            |k: int| (runs[0].0[k], runs[0].1),
        ) + spec_flat_runs(runs.drop_first())) + Seq::new(r.0.len(), |k: int| (r.0[k], r.1)));
    }
}

/// Whether `x` is one of the indices.
fn index_in(indices: &Vec<usize>, x: usize) -> (r: bool)
    ensures
        r == indices@.contains(x),
{
    let n = indices.len();
    for i in 0..n
        invariant
            n == indices@.len(),
            forall|j: int| 0 <= j < i ==> indices@[j] != x,
    {
        if indices[i] == x {
            assert(indices@.contains(x));
            return true;
        }
    }
    assert(!indices@.contains(x));
    false
}

/// Render the bounded highlight window of a matched prompt: at most
/// `max_width` characters centered on the match, an ellipsis marker at either
/// cut edge, and the window split into maximal runs of highlighted and plain
/// characters.
pub fn build_match_snippet(prompt: &str, indices: &Vec<usize>, max_width: usize) -> (r: Snippet)
    requires
        prompt@.len() <= usize::MAX / 2,
        forall|i: int| 0 <= i < indices@.len() ==> (#[trigger] indices@[i]) < prompt@.len(),
    ensures
        r.leading_ellipsis == (spec_snip_start(prompt@, indices@, max_width as int) > 0),
        r.trailing_ellipsis == (spec_snip_end(prompt@, indices@, max_width as int)
            < prompt@.len()),
        spec_flat_runs(r.runs@.map_values(|x: SnippetRun| (x.text@, x.matched)))
            == spec_snip_chars(prompt@, indices@, max_width as int),
        forall|i: int| 0 <= i < r.runs@.len() ==> (#[trigger] r.runs@[i]).text@.len() > 0,
        forall|i: int|
            0 <= i && i + 1 < r.runs@.len() ==> (#[trigger] r.runs@[i]).matched != r.runs@[i
                + 1].matched,
{
    let chars = str_chars(prompt);
    let plen = chars.len();
    let start: usize = if indices.len() == 0 || plen == 0 {
        0
    } else {
        let first = indices[0];
        let last = indices[indices.len() - 1];
        let center = (first + last) / 2;
        let half = max_width / 2;
        if center > half {
            let cap = if plen >= max_width {
                plen - max_width
            } else {
                0
            };
            if center - half < cap {
                center - half
            } else {
                cap
            }
        } else {
            0
        }
    };
    assert(start as int == spec_snip_start(prompt@, indices@, max_width as int));
    let end: usize = if start <= usize::MAX - max_width && start + max_width < plen {
        start + max_width
    } else {
        plen
    };
    assert(end as int == spec_snip_end(prompt@, indices@, max_width as int));
    let ghost target = spec_snip_chars(prompt@, indices@, max_width as int);
    let mut runs: Vec<SnippetRun> = Vec::new();
    let mut cur: Vec<char> = Vec::new();
    let mut cur_flag = false;
    proof {
        assert(spec_flat_runs(runs@.map_values(|x: SnippetRun| (x.text@, x.matched))) + Seq::new(
            cur@.len(),
            |k: int| (cur@[k], cur_flag),
        ) =~= target.subrange(0, 0));
    }
    for k in start..end
        invariant
            start as int == spec_snip_start(prompt@, indices@, max_width as int),
            end as int == spec_snip_end(prompt@, indices@, max_width as int),
            start <= end <= plen,
            plen == prompt@.len(),
            chars@ == prompt@,
            target == spec_snip_chars(prompt@, indices@, max_width as int),
            target.len() == end - start,
            spec_flat_runs(runs@.map_values(|x: SnippetRun| (x.text@, x.matched))) + Seq::new(
                cur@.len(),
                |j: int| (cur@[j], cur_flag),
            ) == target.subrange(0, k - start),
            forall|i: int| 0 <= i < runs@.len() ==> (#[trigger] runs@[i]).text@.len() > 0,
            forall|i: int|
                0 <= i && i + 1 < runs@.len() ==> (#[trigger] runs@[i]).matched != runs@[i + 1].matched,
            runs@.len() > 0 && cur@.len() > 0 ==> runs@.last().matched != cur_flag,
            cur@.len() == 0 ==> runs@.len() == 0,
    {
        let is_match = index_in(indices, k);
        let ghost old_runs = runs@;
        let ghost old_cur = cur@;
        let ghost old_flag = cur_flag;
        if is_match != cur_flag && cur.len() > 0 {
            let text = crate::strutil::chars_to_string(cur.as_slice());
            runs.push(SnippetRun { text, matched: cur_flag });
            cur = Vec::new();
            proof {
                let f = |x: SnippetRun| (x.text@, x.matched);
                assert(runs@.map_values(f) =~= old_runs.map_values(f).push((old_cur, old_flag)));
                lemma_flat_runs_push(old_runs.map_values(f), (old_cur, old_flag));
                assert(spec_flat_runs(runs@.map_values(f)) + Seq::new(
                    cur@.len(),
                    |j: int| (cur@[j], cur_flag),
                ) =~= target.subrange(0, k - start));
                assert(runs@.last().text@ == old_cur);
                assert forall|i: int|
                    0 <= i < runs@.len() implies (#[trigger] runs@[i]).text@.len() > 0 by {
                    if i < runs@.len() - 1 {
                        assert(runs@[i] == old_runs[i]);
                    }
                }
                assert forall|i: int|
                    0 <= i && i + 1 < runs@.len() implies (#[trigger] runs@[i]).matched != runs@[i
                    + 1].matched by {
                    assert(runs@[i] == old_runs[i]);
                    if i + 1 < runs@.len() - 1 {
                        assert(runs@[i + 1] == old_runs[i + 1]);
                    } else {
                        assert(runs@[i + 1] == runs@.last());
                        assert(old_runs.len() > 0 ==> old_runs.last().matched != old_flag);
                    }
                }
            }
        }
        let ghost mid_runs = runs@;
        let ghost mid_cur = cur@;
        cur.push(chars[k]);
        cur_flag = is_match;
        proof {
            let f = |x: SnippetRun| (x.text@, x.matched);
            assert(target.subrange(0, k + 1 - start) =~= target.subrange(0, k - start).push(
                target[k - start],
            ));
            assert(target[k - start] == (prompt@[k as int], indices@.contains(k)));
            if is_match != old_flag && old_cur.len() > 0 {
                assert(mid_cur.len() == 0);
                assert(Seq::new(cur@.len(), |j: int| (cur@[j], cur_flag)) =~= Seq::new(
                    mid_cur.len(),
                    |j: int| (mid_cur[j], is_match),
                ).push((prompt@[k as int], is_match)));
            } else {
                assert(mid_cur == old_cur && mid_runs == old_runs);
                if old_cur.len() > 0 {
                    assert(is_match == old_flag);
                    assert(Seq::new(cur@.len(), |j: int| (cur@[j], cur_flag)) =~= Seq::new(
                        old_cur.len(),
                        |j: int| (old_cur[j], old_flag),
                    ).push((prompt@[k as int], is_match)));
                } else {
                    assert(Seq::new(old_cur.len(), |j: int| (old_cur[j], old_flag)) =~= Seq::<
                        (char, bool),
                    >::empty());
                    assert(Seq::new(cur@.len(), |j: int| (cur@[j], cur_flag)) =~= Seq::new(
                        old_cur.len(),
                        |j: int| (old_cur[j], old_flag),
                    ).push((prompt@[k as int], is_match)));
                }
            }
            assert(spec_flat_runs(runs@.map_values(f)) + Seq::new(
                cur@.len(),
                |j: int| (cur@[j], cur_flag),
            ) =~= target.subrange(0, k + 1 - start));
        }
    }
    if cur.len() > 0 {
        let ghost old_runs = runs@;
        let ghost old_cur = cur@;
        let text = crate::strutil::chars_to_string(cur.as_slice());
        runs.push(SnippetRun { text, matched: cur_flag });
        proof {
            let f = |x: SnippetRun| (x.text@, x.matched);
            assert(runs@.map_values(f) =~= old_runs.map_values(f).push((old_cur, cur_flag)));
            lemma_flat_runs_push(old_runs.map_values(f), (old_cur, cur_flag));
            assert(spec_flat_runs(runs@.map_values(f)) =~= target.subrange(0, end - start));
            assert(runs@.last().text@ == old_cur);
            assert forall|i: int|
                0 <= i < runs@.len() implies (#[trigger] runs@[i]).text@.len() > 0 by {
                if i < runs@.len() - 1 {
                    assert(runs@[i] == old_runs[i]);
                }
            }
            assert forall|i: int|
                0 <= i && i + 1 < runs@.len() implies (#[trigger] runs@[i]).matched != runs@[i
                + 1].matched by {
                assert(runs@[i] == old_runs[i]);
                if i + 1 < runs@.len() - 1 {
                    assert(runs@[i + 1] == old_runs[i + 1]);
                } else {
                    assert(runs@[i + 1] == runs@.last());
                    assert(old_runs.len() > 0 ==> old_runs.last().matched != cur_flag);
                }
            }
        }
    }
    proof {
        assert(target.subrange(0, end - start) =~= target);
        assert(Seq::new(cur@.len(), |j: int| (cur@[j], cur_flag)).len() == cur@.len());
    }
    let r = Snippet { leading_ellipsis: start > 0, runs, trailing_ellipsis: end < plen };
    r
}

} // verus!
