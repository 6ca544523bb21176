//! The message parser: one raw JSONL line becomes zero or more normalized
//! [`Message`]s, and project directory names are decoded back to paths. Every
//! rule of the wire format is stated as a spec function and the executable
//! code is proved against it.
use vstd::prelude::*;
use vstd::multiset::Multiset;
use crate::json::{
    parse_json, parse_json_spec, spec_get, spec_get_str, spec_as_u64, render_of, render_json,
    JsonValue, JsonV, json_view_seq, lemma_json_view_seq, clone_json,
};
use crate::models::{Message, MessageV, MessageRole, SessionInfo, SessionInfoV};
use crate::strutil::{
    spec_trim, spec_join_nl, spec_replace_all, trim_chars, str_chars, chars_to_string,
    replace_all, str_eq, join_nl, split_lines,
};
use crate::time::{spec_parse_timestamp, parse_timestamp_str};

verus! {

/// The string an optional field stands for: absent means empty.
pub open spec fn or_empty(o: Option<Seq<char>>) -> Seq<char> {
    match o {
        Some(s) => s,
        None => Seq::empty(),
    }
}

/// `s`, cut to `max_chars` characters with an ellipsis marker when longer.
pub open spec fn spec_truncate(s: Seq<char>, max_chars: int) -> Seq<char> {
    if s.len() <= max_chars {
        s
    } else {
        s.subrange(0, max_chars) + "..."@
    }
}

/// Truncate to at most `max_chars` characters, appending `...` when cut.
pub fn truncate_str(s: &str, max_chars: usize) -> (r: String)
    ensures
        r@ == spec_truncate(s@, max_chars as int),
{
    let chars = str_chars(s);
    if chars.len() <= max_chars {
        let r = chars_to_string(chars.as_slice());
        r
    } else {
        let mut out: Vec<char> = Vec::new();
        for i in 0..max_chars
            invariant
                max_chars < chars@.len(),
                chars@ == s@,
                out@ == s@.subrange(0, i as int),
        {
            out.push(chars[i]);
            assert(out@ =~= s@.subrange(0, i + 1 as int));
        }
        let mut r = chars_to_string(out.as_slice());
        r.append("...");
        assert(r@ =~= spec_truncate(s@, max_chars as int));
        r
    }
}

/// One domain segment restored to its dotted form when it occurs inside the
/// name (`-github-com-` to `/github.com/`).
pub open spec fn spec_domain_inner(s: Seq<char>) -> Seq<char> {
    let s1 = spec_replace_all(s, "-tech-pepabo-com-"@, "/tech.pepabo.com/"@);
    let s2 = spec_replace_all(s1, "-git-pepabo-com-"@, "/git.pepabo.com/"@);
    let s3 = spec_replace_all(s2, "-github-com-"@, "/github.com/"@);
    let s4 = spec_replace_all(s3, "-gitlab-com-"@, "/gitlab.com/"@);
    spec_replace_all(s4, "-bitbucket-org-"@, "/bitbucket.org/"@)
}

pub open spec fn spec_ends_with(s: Seq<char>, suffix: Seq<char>) -> bool {
    s.len() >= suffix.len() && s.subrange(s.len() - suffix.len(), s.len() as int) == suffix
}

/// The first matching domain ending restored to its dotted form.
pub open spec fn spec_domain_ending(s: Seq<char>) -> Seq<char> {
    if spec_ends_with(s, "-tech-pepabo-com"@) {
        s.subrange(0, s.len() - "-tech-pepabo-com"@.len()) + "/tech.pepabo.com"@
    } else if spec_ends_with(s, "-git-pepabo-com"@) {
        s.subrange(0, s.len() - "-git-pepabo-com"@.len()) + "/git.pepabo.com"@
    } else if spec_ends_with(s, "-github-com"@) {
        s.subrange(0, s.len() - "-github-com"@.len()) + "/github.com"@
    } else if spec_ends_with(s, "-gitlab-com"@) {
        s.subrange(0, s.len() - "-gitlab-com"@.len()) + "/gitlab.com"@
    } else if spec_ends_with(s, "-bitbucket-org"@) {
        s.subrange(0, s.len() - "-bitbucket-org"@.len()) + "/bitbucket.org"@
    } else {
        s
    }
}

pub open spec fn spec_strip_leading_dashes(s: Seq<char>) -> Seq<char>
    decreases s.len(),
{
    if s.len() > 0 && s[0] == '-' {
        spec_strip_leading_dashes(s.drop_first())
    } else {
        s
    }
}

pub open spec fn spec_dashes_to_slashes(s: Seq<char>) -> Seq<char> {
    s.map_values(|c: char| if c == '-' { '/' } else { c })
}

/// The decoded project path: leading dashes stripped, known domain patterns
/// restored, every other dash read as a path separator, with a leading slash.
/// The encoding is lossy, so this is a best-effort reading.
pub open spec fn spec_decode_project_path(dir_name: Seq<char>) -> Seq<char> {
    if dir_name.len() == 0 {
        dir_name
    } else {
        let stripped = spec_strip_leading_dashes(dir_name);
        let replaced = spec_domain_ending(spec_domain_inner(stripped));
        seq!['/'] + spec_dashes_to_slashes(replaced)
    }
}

fn ends_with_chars(s: &Vec<char>, suffix: &Vec<char>) -> (r: bool)
    ensures
        r == spec_ends_with(s@, suffix@),
{
    let n = s.len();
    let m = suffix.len();
    if m > n {
        return false;
    }
    for i in 0..m
        invariant
            m <= n,
            n == s@.len(),
            m == suffix@.len(),
            s@.subrange(n - m, n - m + i as int) == suffix@.subrange(0, i as int),
    {
        if s[n - m + i] != suffix[i] {
            assert(s@.subrange(n - m, n as int)[i as int] == s@[n - m + i]);
            return false;
        }
        assert(s@.subrange(n - m, n - m + (i + 1) as int) =~= s@.subrange(n - m, n - m + i as int)
            + seq![s@[n - m + i]]);
        assert(suffix@.subrange(0, (i + 1) as int) =~= suffix@.subrange(0, i as int) + seq![
            suffix@[i as int],
        ]);
    }
    assert(s@.subrange(n - m, n as int) =~= suffix@);
    true
}

/// Replace the ending `suffix` by `rep` if `s` ends with it; say whether it did.
fn replace_ending(s: &Vec<char>, suffix: &str, rep: &str) -> (r: (Vec<char>, bool))
    ensures
        r.1 == spec_ends_with(s@, suffix@),
        r.1 ==> r.0@ == s@.subrange(0, s@.len() - suffix@.len()) + rep@,
        !r.1 ==> r.0@ == s@,
{
    let sufv = str_chars(suffix);
    let repv = str_chars(rep);
    if ends_with_chars(s, &sufv) {
        let n = s.len();
        let m = sufv.len();
        let mut out: Vec<char> = Vec::new();
        for i in 0..(n - m)
            invariant
                m <= n,
                n == s@.len(),
                m == suffix@.len(),
                out@ == s@.subrange(0, i as int),
        {
            out.push(s[i]);
            assert(out@ =~= s@.subrange(0, i + 1 as int));
        }
        for j in 0..repv.len()
            invariant
                repv@ == rep@,
                n == s@.len(),
                m == suffix@.len(),
                m <= n,
                out@ == s@.subrange(0, n - m) + rep@.subrange(0, j as int),
        {
            out.push(repv[j]);
            assert(out@ =~= s@.subrange(0, n - m) + rep@.subrange(0, (j + 1) as int));
        }
        assert(out@ =~= s@.subrange(0, s@.len() - suffix@.len()) + rep@);
        (out, true)
    } else {
        let mut out: Vec<char> = Vec::new();
        let n = s.len();
        for i in 0..n
            invariant
                n == s@.len(),
                out@ == s@.subrange(0, i as int),
        {
            out.push(s[i]);
            assert(out@ =~= s@.subrange(0, i + 1 as int));
        }
        assert(out@ =~= s@);
        (out, false)
    }
}

fn replace_pattern(s: Vec<char>, pat: &str, rep: &str) -> (r: Vec<char>)
    ensures
        r@ == spec_replace_all(s@, pat@, rep@),
{
    let patv = str_chars(pat);
    let repv = str_chars(rep);
    replace_all(&s, &patv, &repv)
}

/// Decode a project directory name back to the original filesystem path.
///
/// The encoding replaces every `/` and `.` with `-`, so exact recovery is
/// impossible; known domain patterns are restored first, and the sidecar
/// metadata file is preferred over this heuristic whenever it is present.
pub fn decode_project_path(dir_name: &str) -> (r: String)
    ensures
        r@ == spec_decode_project_path(dir_name@),
{
    let chars = str_chars(dir_name);
    if chars.len() == 0 {
        let r = String::new();
        assert(r@ =~= spec_decode_project_path(dir_name@));
        return r;
    }
    // strip the leading dashes
    let mut start: usize = 0;
    let n = chars.len();
    assert(chars@.skip(0) =~= chars@);
    while start < n && chars[start] == '-'
        invariant
            n == chars@.len(),
            0 <= start <= n,
            spec_strip_leading_dashes(chars@) == spec_strip_leading_dashes(
                chars@.skip(start as int),
            ),
        decreases n - start,
    {
        assert(chars@.skip(start as int).drop_first() =~= chars@.skip(start + 1 as int));
        start = start + 1;
    }
    assert(chars@.skip(start as int).len() == 0 || chars@.skip(start as int)[0] != '-');
    assert(spec_strip_leading_dashes(chars@) == chars@.skip(start as int));
    let mut cur: Vec<char> = Vec::new();
    for i in start..n
        invariant
            start <= n,
            n == chars@.len(),
            cur@ == chars@.subrange(start as int, i as int),
    {
        cur.push(chars[i]);
        assert(cur@ =~= chars@.subrange(start as int, i + 1 as int));
    }
    assert(cur@ =~= chars@.skip(start as int));
    // domain patterns inside the name
    let cur = replace_pattern(cur, "-tech-pepabo-com-", "/tech.pepabo.com/");
    let cur = replace_pattern(cur, "-git-pepabo-com-", "/git.pepabo.com/");
    let cur = replace_pattern(cur, "-github-com-", "/github.com/");
    let cur = replace_pattern(cur, "-gitlab-com-", "/gitlab.com/");
    let cur = replace_pattern(cur, "-bitbucket-org-", "/bitbucket.org/");
    assert(cur@ == spec_domain_inner(spec_strip_leading_dashes(dir_name@)));
    // domain patterns as the ending
    let (cur, done) = replace_ending(&cur, "-tech-pepabo-com", "/tech.pepabo.com");
    let (cur, done) = if done {
        (cur, done)
    } else {
        replace_ending(&cur, "-git-pepabo-com", "/git.pepabo.com")
    };
    let (cur, done) = if done {
        (cur, done)
    } else {
        replace_ending(&cur, "-github-com", "/github.com")
    };
    let (cur, done) = if done {
        (cur, done)
    } else {
        replace_ending(&cur, "-gitlab-com", "/gitlab.com")
    };
    let (cur, _done) = if done {
        (cur, done)
    } else {
        replace_ending(&cur, "-bitbucket-org", "/bitbucket.org")
    };
    assert(cur@ == spec_domain_ending(spec_domain_inner(spec_strip_leading_dashes(dir_name@))));
    // every remaining dash reads as a path separator, under a leading slash
    let mut out: Vec<char> = Vec::new();
    out.push('/');
    let m = cur.len();
    for i in 0..m
        invariant
            m == cur@.len(),
            out@ == seq!['/'] + spec_dashes_to_slashes(cur@).subrange(0, i as int),
    {
        let c = cur[i];
        if c == '-' {
            out.push('/');
        } else {
            out.push(c);
        }
        assert(out@ =~= seq!['/'] + spec_dashes_to_slashes(cur@).subrange(0, i + 1 as int));
    }
    assert(spec_dashes_to_slashes(cur@).subrange(0, m as int) =~= spec_dashes_to_slashes(cur@));
    assert(out@ == spec_decode_project_path(dir_name@));
    let r = chars_to_string(out.as_slice());
    r
}

/// What a content block contributes to the joined text: its `text` field, but
/// only when its `type` is exactly `text`; thinking and tool blocks contribute
/// nothing.
pub open spec fn spec_block_text(b: JsonV) -> Option<Seq<char>> {
    if spec_get_str(b, "type"@) == Some("text"@) {
        spec_get_str(b, "text"@)
    } else {
        None
    }
}

pub open spec fn spec_text_parts(items: Seq<JsonV>) -> Seq<Seq<char>>
    decreases items.len(),
{
    if items.len() == 0 {
        Seq::empty()
    } else {
        let rest = spec_text_parts(items.drop_first());
        match spec_block_text(items[0]) {
            Some(t) => seq![t] + rest,
            None => rest,
        }
    }
}

/// The text a content value stands for: a bare string verbatim, an array as
/// its text blocks joined with newlines, anything else empty.
pub open spec fn spec_extract_text(content: JsonV) -> Seq<char> {
    match content {
        JsonV::Str(s) => s,
        JsonV::Arr(items) => spec_join_nl(spec_text_parts(items)),
        _ => Seq::empty(),
    }
}

/// Extract text from content that can be a string or an array of content
/// blocks. Thinking blocks are excluded; only `text` blocks are joined.
pub fn extract_text_from_content(content: &JsonValue) -> (r: String)
    ensures
        r@ == spec_extract_text(content@),
{
    match content {
        JsonValue::Str(s) => s.clone(),
        JsonValue::Arr(items) => {
            let ghost vs = json_view_seq(items@);
            let mut parts: Vec<String> = Vec::new();
            let n = items.len();
            proof {
                lemma_json_view_seq(items@);
                assert(vs.skip(0) =~= vs);
            }
            for i in 0..n
                invariant
                    n == items@.len(),
                    vs == json_view_seq(items@),
                    vs.len() == n,
                    content@ == JsonV::Arr(vs),
                    spec_text_parts(vs) == parts@.map_values(|s: String| s@) + spec_text_parts(
                        vs.skip(i as int),
                    ),
            {
                proof {
                    lemma_json_view_seq(items@);
                    assert(vs.skip(i as int)[0] == vs[i as int]);
                    assert(vs.skip(i as int).drop_first() =~= vs.skip(i + 1 as int));
                }
                let ghost old_parts = parts@;
                let b = &items[i];
                let mut pushed = false;
                match b.get_str("type") {
                    Some(t) => {
                        if str_eq(t.as_str(), "text") {
                            match b.get_str("text") {
                                Some(tx) => {
                                    parts.push(tx.clone());
                                    pushed = true;
                                },
                                None => {},
                            }
                        }
                    },
                    None => {},
                }
                proof {
                    if pushed {
                        assert(parts@.map_values(|s: String| s@) =~= old_parts.map_values(
                            |s: String| s@,
                        ).push(parts@.last()@));
                        assert(parts@.map_values(|s: String| s@) + spec_text_parts(
                            vs.skip(i + 1 as int),
                        ) =~= old_parts.map_values(|s: String| s@) + (seq![parts@.last()@]
                            + spec_text_parts(vs.skip(i + 1 as int))));
                    }
                }
            }
            assert(vs.skip(n as int).len() == 0);
            assert(parts@.map_values(|s: String| s@) + spec_text_parts(vs.skip(n as int))
                =~= parts@.map_values(|s: String| s@));
            let r = join_nl(&parts);
            r
        },
        JsonValue::Null => {
            let r = String::new();
            r
        },
        JsonValue::Bool(_) => {
            let r = String::new();
            r
        },
        JsonValue::Num(_) => {
            let r = String::new();
            r
        },
        JsonValue::Obj(_) => {
            let r = String::new();
            r
        },
    }
}

/// Whether a block is a tool invocation or a tool result.
pub open spec fn spec_is_tool_block(b: JsonV) -> bool {
    spec_get_str(b, "type"@) == Some("tool_use"@) || spec_get_str(b, "type"@) == Some(
        "tool_result"@,
    )
}

pub open spec fn spec_tool_blocks_of_seq(items: Seq<JsonV>) -> Seq<JsonV>
    decreases items.len(),
{
    if items.len() == 0 {
        Seq::empty()
    } else if spec_is_tool_block(items[0]) {
        seq![items[0]] + spec_tool_blocks_of_seq(items.drop_first())
    } else {
        spec_tool_blocks_of_seq(items.drop_first())
    }
}

/// The tool blocks of a content value, in order; empty unless it is an array.
pub open spec fn spec_tool_blocks(content: JsonV) -> Seq<JsonV> {
    match content {
        JsonV::Arr(items) => spec_tool_blocks_of_seq(items),
        _ => Seq::empty(),
    }
}

/// Extract the `tool_use` / `tool_result` blocks from a content array.
pub fn extract_tool_blocks(content: &JsonValue) -> (r: Vec<JsonValue>)
    ensures
        json_view_seq(r@) == spec_tool_blocks(content@),
{
    match content {
        JsonValue::Arr(items) => {
            let ghost vs = json_view_seq(items@);
            let mut out: Vec<JsonValue> = Vec::new();
            let n = items.len();
            proof {
                lemma_json_view_seq(items@);
                assert(vs.skip(0) =~= vs);
                lemma_json_view_seq(out@);
            }
            for i in 0..n
                invariant
                    n == items@.len(),
                    vs == json_view_seq(items@),
                    vs.len() == n,
                    content@ == JsonV::Arr(vs),
                    spec_tool_blocks_of_seq(vs) == json_view_seq(out@) + spec_tool_blocks_of_seq(
                        vs.skip(i as int),
                    ),
            {
                proof {
                    lemma_json_view_seq(items@);
                    assert(vs.skip(i as int)[0] == vs[i as int]);
                    assert(vs.skip(i as int).drop_first() =~= vs.skip(i + 1 as int));
                }
                let ghost old_out = out@;
                let b = &items[i];
                let is_tool = match b.get_str("type") {
                    Some(t) => str_eq(t.as_str(), "tool_use") || str_eq(t.as_str(), "tool_result"),
                    None => false,
                };
                if is_tool {
                    let c = clone_json(b);
                    out.push(c);
                }
                proof {
                    lemma_json_view_seq(old_out);
                    lemma_json_view_seq(out@);
                    if is_tool {
                        assert(json_view_seq(out@) =~= json_view_seq(old_out) + seq![vs[i as int]]);
                        assert(json_view_seq(old_out) + (seq![vs[i as int]]
                            + spec_tool_blocks_of_seq(vs.skip(i + 1 as int))) =~= (json_view_seq(
                            old_out,
                        ) + seq![vs[i as int]]) + spec_tool_blocks_of_seq(vs.skip(i + 1 as int)));
                    }
                }
            }
            assert(vs.skip(n as int).len() == 0);
            assert(json_view_seq(out@) + spec_tool_blocks_of_seq(vs.skip(n as int))
                =~= json_view_seq(out@));
            out
        },
        _ => {
            let out: Vec<JsonValue> = Vec::new();
            proof {
                lemma_json_view_seq(out@);
                assert(json_view_seq(out@) =~= spec_tool_blocks(content@));
            }
            out
        },
    }
}

/// The one-line, human-readable summary of one tool invocation: table-driven
/// by tool name, with a bracketed-name fallback for unknown tools.
pub open spec fn spec_summarize_tool_use(name: Seq<char>, input: JsonV) -> Seq<char> {
    if name == "Bash"@ {
        let desc = or_empty(spec_get_str(input, "description"@));
        if desc.len() > 0 {
            "[Bash] "@ + desc
        } else {
            "[Bash] "@ + spec_truncate(or_empty(spec_get_str(input, "command"@)), 100)
        }
    } else if name == "Read"@ {
        "[Read] "@ + or_empty(spec_get_str(input, "file_path"@))
    } else if name == "Write"@ {
        "[Write] "@ + or_empty(spec_get_str(input, "file_path"@))
    } else if name == "Edit"@ {
        "[Edit] "@ + or_empty(spec_get_str(input, "file_path"@))
    } else if name == "Grep"@ {
        let path = match spec_get_str(input, "path"@) {
            Some(p) => p,
            None => "."@,
        };
        "[Grep] "@ + or_empty(spec_get_str(input, "pattern"@)) + " in "@ + path
    } else if name == "Glob"@ {
        "[Glob] "@ + or_empty(spec_get_str(input, "pattern"@))
    } else if name == "WebFetch"@ {
        "[WebFetch] "@ + or_empty(spec_get_str(input, "url"@))
    } else {
        "["@ + name + "]"@
    }
}

/// A prefix followed by the named string field, or the prefix alone.
fn tag_field(prefix: &str, input: &JsonValue, key: &str) -> (r: String)
    ensures
        r@ == prefix@ + or_empty(spec_get_str(input@, key@)),
{
    let mut s = prefix.to_owned();
    match input.get_str(key) {
        Some(v) => {
            s.append(v.as_str());
        },
        None => {
            assert(prefix@ + Seq::<char>::empty() =~= prefix@);
        },
    }
    s
}

/// Create a human-readable summary of a tool use invocation.
pub fn summarize_tool_use(tool_name: &str, input: &JsonValue) -> (r: String)
    ensures
        r@ == spec_summarize_tool_use(tool_name@, input@),
{
    if str_eq(tool_name, "Bash") {
        match input.get_str("description") {
            Some(d) => {
                if !d.as_str().is_empty() {
                    let mut s = "[Bash] ".to_owned();
                    s.append(d.as_str());
                    return s;
                }
            },
            None => {},
        }
        let cmd = match input.get_str("command") {
            Some(c) => truncate_str(c.as_str(), 100),
            None => {
                let e = String::new();
                assert(e@ =~= spec_truncate(Seq::<char>::empty(), 100));
                e
            },
        };
        let mut s = "[Bash] ".to_owned();
        s.append(cmd.as_str());
        s
    } else if str_eq(tool_name, "Read") {
        tag_field("[Read] ", input, "file_path")
    } else if str_eq(tool_name, "Write") {
        tag_field("[Write] ", input, "file_path")
    } else if str_eq(tool_name, "Edit") {
        tag_field("[Edit] ", input, "file_path")
    } else if str_eq(tool_name, "Grep") {
        let mut s = tag_field("[Grep] ", input, "pattern");
        s.append(" in ");
        match input.get_str("path") {
            Some(p) => {
                s.append(p.as_str());
            },
            None => {
                s.append(".");
            },
        }
        s
    } else if str_eq(tool_name, "Glob") {
        tag_field("[Glob] ", input, "pattern")
    } else if str_eq(tool_name, "WebFetch") {
        tag_field("[WebFetch] ", input, "url")
    } else {
        let mut s = "[".to_owned();
        s.append(tool_name);
        s.append("]");
        s
    }
}

/// The record's timestamp: its `timestamp` field parsed as RFC 3339.
pub open spec fn spec_record_ts(v: JsonV) -> Option<i64> {
    match spec_get_str(v, "timestamp"@) {
        Some(s) => spec_parse_timestamp(s),
        None => None,
    }
}

fn get_record_ts(v: &JsonValue) -> (r: Option<i64>)
    ensures
        r == spec_record_ts(v@),
{
    match v.get_str("timestamp") {
        Some(s) => parse_timestamp_str(s.as_str()),
        None => None,
    }
}

/// The record's `message.content` value, an empty string when absent.
pub open spec fn spec_content_of(v: JsonV) -> JsonV {
    match spec_get(v, "message"@) {
        Some(m) => match spec_get(m, "content"@) {
            Some(c) => c,
            None => JsonV::Str(Seq::empty()),
        },
        None => JsonV::Str(Seq::empty()),
    }
}

pub fn content_of(v: &JsonValue) -> (c: JsonValue)
    ensures
        c@ == spec_content_of(v@),
{
    match v.get("message") {
        Some(m) => match m.get("content") {
            Some(c) => clone_json(c),
            None => JsonValue::Str(String::new()),
        },
        None => JsonValue::Str(String::new()),
    }
}

/// The record's `message.content` value, null when absent.
pub open spec fn spec_content_or_null(v: JsonV) -> JsonV {
    match spec_get(v, "message"@) {
        Some(m) => match spec_get(m, "content"@) {
            Some(c) => c,
            None => JsonV::Null,
        },
        None => JsonV::Null,
    }
}

fn content_or_null(v: &JsonValue) -> (c: JsonValue)
    ensures
        c@ == spec_content_or_null(v@),
{
    match v.get("message") {
        Some(m) => match m.get("content") {
            Some(c) => clone_json(c),
            None => JsonValue::Null,
        },
        None => JsonValue::Null,
    }
}

/// What a tool result renders as: joined text blocks for an array, a bare
/// string verbatim, anything else as JSON text.
pub open spec fn spec_tool_result_text(b: JsonV) -> Seq<char> {
    let rc = match spec_get(b, "content"@) {
        Some(c) => c,
        None => JsonV::Str(Seq::empty()),
    };
    match rc {
        JsonV::Arr(_) => spec_extract_text(rc),
        JsonV::Str(s) => s,
        _ => render_of(rc),
    }
}

fn tool_result_text(b: &JsonValue) -> (r: String)
    ensures
        r@ == spec_tool_result_text(b@),
{
    let rc = match b.get("content") {
        Some(c) => clone_json(c),
        None => JsonValue::Str(String::new()),
    };
    match &rc {
        JsonValue::Arr(_) => extract_text_from_content(&rc),
        JsonValue::Str(s) => s.clone(),
        _ => render_json(&rc),
    }
}

/// One `ToolResult` message per `tool_result` block, in block order.
pub open spec fn spec_tool_result_messages(tools: Seq<JsonV>, ts: Option<i64>) -> Seq<MessageV>
    decreases tools.len(),
{
    if tools.len() == 0 {
        Seq::empty()
    } else {
        let rest = spec_tool_result_messages(tools.drop_first(), ts);
        if spec_get_str(tools[0], "type"@) == Some("tool_result"@) {
            seq![
                MessageV {
                    role: MessageRole::ToolResult,
                    text: spec_tool_result_text(tools[0]),
                    timestamp: ts,
                    tool_name: None,
                },
            ] + rest
        } else {
            rest
        }
    }
}

/// The messages a `user` record yields: one `ToolResult` per tool block when
/// any is present, else one `User` message holding the non-empty joined text.
pub open spec fn spec_user_messages(v: JsonV, ts: Option<i64>) -> Seq<MessageV> {
    let content = spec_content_of(v);
    let tools = spec_tool_blocks(content);
    if tools.len() > 0 {
        spec_tool_result_messages(tools, ts)
    } else {
        let text = spec_extract_text(content);
        if text.len() > 0 {
            seq![MessageV { role: MessageRole::User, text, timestamp: ts, tool_name: None }]
        } else {
            Seq::empty()
        }
    }
}

fn user_messages(v: &JsonValue, ts: Option<i64>) -> (r: Vec<Message>)
    ensures
        r@.map_values(|m: Message| m@) == spec_user_messages(v@, ts),
{
    let content = content_of(v);
    let tools = extract_tool_blocks(&content);
    let ghost tvs = json_view_seq(tools@);
    proof {
        lemma_json_view_seq(tools@);
    }
    if tools.len() > 0 {
        let mut msgs: Vec<Message> = Vec::new();
        let n = tools.len();
        proof {
            assert(tvs.skip(0) =~= tvs);
            assert(msgs@.map_values(|m: Message| m@) =~= Seq::<MessageV>::empty());
        }
        for i in 0..n
            invariant
                n == tools@.len(),
                tvs == json_view_seq(tools@),
                tvs.len() == n,
                tvs == spec_tool_blocks(spec_content_of(v@)),
                spec_tool_result_messages(tvs, ts) == msgs@.map_values(|m: Message| m@)
                    + spec_tool_result_messages(tvs.skip(i as int), ts),
        {
            proof {
                lemma_json_view_seq(tools@);
                assert(tvs.skip(i as int)[0] == tvs[i as int]);
                assert(tvs.skip(i as int).drop_first() =~= tvs.skip(i + 1 as int));
            }
            let ghost old_msgs = msgs@;
            let b = &tools[i];
            let is_result = match b.get_str("type") {
                Some(t) => str_eq(t.as_str(), "tool_result"),
                None => false,
            };
            if is_result {
                let text = tool_result_text(b);
                msgs.push(
                    Message { role: MessageRole::ToolResult, text, timestamp: ts, tool_name: None },
                );
                proof {
                    assert(msgs@.map_values(|m: Message| m@) =~= old_msgs.map_values(
                        |m: Message| m@,
                    ).push(msgs@.last()@));
                    assert(msgs@.last()@ =~= MessageV {
                        role: MessageRole::ToolResult,
                        text: spec_tool_result_text(tvs[i as int]),
                        timestamp: ts,
                        tool_name: None,
                    });
                    assert(msgs@.map_values(|m: Message| m@) + spec_tool_result_messages(
                        tvs.skip(i + 1 as int),
                        ts,
                    ) =~= old_msgs.map_values(|m: Message| m@) + (seq![msgs@.last()@]
                        + spec_tool_result_messages(tvs.skip(i + 1 as int), ts)));
                }
            }
        }
        assert(tvs.skip(n as int).len() == 0);
        assert(msgs@.map_values(|m: Message| m@) + spec_tool_result_messages(
            tvs.skip(n as int),
            ts,
        ) =~= msgs@.map_values(|m: Message| m@));
        msgs
    } else {
        let text = extract_text_from_content(&content);
        let mut msgs: Vec<Message> = Vec::new();
        if !text.as_str().is_empty() {
            msgs.push(Message { role: MessageRole::User, text, timestamp: ts, tool_name: None });
            assert(msgs@.map_values(|m: Message| m@) =~= seq![
                MessageV {
                    role: MessageRole::User,
                    text: spec_extract_text(spec_content_of(v@)),
                    timestamp: ts,
                    tool_name: None,
                },
            ]);
        } else {
            assert(msgs@.map_values(|m: Message| m@) =~= Seq::<MessageV>::empty());
        }
        msgs
    }
}

/// One `ToolUse` message per `tool_use` block, each with its summary.
pub open spec fn spec_tool_use_messages(items: Seq<JsonV>, ts: Option<i64>) -> Seq<MessageV>
    decreases items.len(),
{
    if items.len() == 0 {
        Seq::empty()
    } else {
        let rest = spec_tool_use_messages(items.drop_first(), ts);
        if spec_get_str(items[0], "type"@) == Some("tool_use"@) {
            let name = or_empty(spec_get_str(items[0], "name"@));
            let input = match spec_get(items[0], "input"@) {
                Some(x) => x,
                None => JsonV::Obj(Seq::empty()),
            };
            seq![
                MessageV {
                    role: MessageRole::ToolUse,
                    text: spec_summarize_tool_use(name, input),
                    timestamp: ts,
                    tool_name: Some(name),
                },
            ] + rest
        } else {
            rest
        }
    }
}

/// The messages an `assistant` record yields: the joined text when non-empty,
/// then one `ToolUse` message per `tool_use` block in array order.
pub open spec fn spec_assistant_messages(v: JsonV, ts: Option<i64>) -> Seq<MessageV> {
    let content = spec_content_of(v);
    let text = spec_extract_text(content);
    let head: Seq<MessageV> = if text.len() > 0 {
        seq![MessageV { role: MessageRole::Assistant, text, timestamp: ts, tool_name: None }]
    } else {
        Seq::empty()
    };
    match content {
        JsonV::Arr(items) => head + spec_tool_use_messages(items, ts),
        _ => head,
    }
}

fn assistant_messages(v: &JsonValue, ts: Option<i64>) -> (r: Vec<Message>)
    ensures
        r@.map_values(|m: Message| m@) == spec_assistant_messages(v@, ts),
{
    let content = content_of(v);
    let text = extract_text_from_content(&content);
    let mut msgs: Vec<Message> = Vec::new();
    let ghost head = if text@.len() > 0 {
        seq![
            MessageV {
                role: MessageRole::Assistant,
                text: text@,
                timestamp: ts,
                tool_name: None,
            },
        ]
    } else {
        Seq::<MessageV>::empty()
    };
    if !text.as_str().is_empty() {
        msgs.push(Message { role: MessageRole::Assistant, text, timestamp: ts, tool_name: None });
    }
    assert(msgs@.map_values(|m: Message| m@) =~= head);
    match &content {
        JsonValue::Arr(items) => {
            let ghost ivs = json_view_seq(items@);
            let n = items.len();
            proof {
                lemma_json_view_seq(items@);
                assert(ivs.skip(0) =~= ivs);
                assert(head + spec_tool_use_messages(ivs, ts) =~= msgs@.map_values(
                    |m: Message| m@,
                ) + spec_tool_use_messages(ivs.skip(0), ts));
            }
            for i in 0..n
                invariant
                    n == items@.len(),
                    ivs == json_view_seq(items@),
                    ivs.len() == n,
                    content@ == JsonV::Arr(ivs),
                    head + spec_tool_use_messages(ivs, ts) == msgs@.map_values(|m: Message| m@)
                        + spec_tool_use_messages(ivs.skip(i as int), ts),
            {
                proof {
                    lemma_json_view_seq(items@);
                    assert(ivs.skip(i as int)[0] == ivs[i as int]);
                    assert(ivs.skip(i as int).drop_first() =~= ivs.skip(i + 1 as int));
                }
                let ghost old_msgs = msgs@;
                let b = &items[i];
                let is_use = match b.get_str("type") {
                    Some(t) => str_eq(t.as_str(), "tool_use"),
                    None => false,
                };
                if is_use {
                    let name = match b.get_str("name") {
                        Some(s) => s.clone(),
                        None => String::new(),
                    };
                    let input = match b.get("input") {
                        Some(x) => clone_json(x),
                        None => {
                            let o = JsonValue::Obj(Vec::new());
                            assert(o@ =~= JsonV::Obj(Seq::empty()));
                            o
                        },
                    };
                    let summary = summarize_tool_use(name.as_str(), &input);
                    msgs.push(
                        Message {
                            role: MessageRole::ToolUse,
                            text: summary,
                            timestamp: ts,
                            tool_name: Some(name),
                        },
                    );
                    proof {
                        assert(msgs@.map_values(|m: Message| m@) =~= old_msgs.map_values(
                            |m: Message| m@,
                        ).push(msgs@.last()@));
                        assert(msgs@.map_values(|m: Message| m@) + spec_tool_use_messages(
                            ivs.skip(i + 1 as int),
                            ts,
                        ) =~= old_msgs.map_values(|m: Message| m@) + (seq![msgs@.last()@]
                            + spec_tool_use_messages(ivs.skip(i + 1 as int), ts)));
                    }
                }
            }
            assert(ivs.skip(n as int).len() == 0);
            assert(msgs@.map_values(|m: Message| m@) + spec_tool_use_messages(
                ivs.skip(n as int),
                ts,
            ) =~= msgs@.map_values(|m: Message| m@));
            msgs
        },
        _ => {
            msgs
        },
    }
}

/// The one message a `system` record yields: its text, or a bracketed marker
/// naming the subtype when the text is empty.
pub open spec fn spec_system_message(v: JsonV, ts: Option<i64>) -> MessageV {
    let subtype = or_empty(spec_get_str(v, "subtype"@));
    let raw = spec_content_or_null(v);
    let text = match raw {
        JsonV::Str(s) => s,
        JsonV::Arr(_) => spec_extract_text(raw),
        JsonV::Obj(_) => spec_extract_text(raw),
        _ => Seq::empty(),
    };
    let shown = if text.len() == 0 {
        if subtype.len() == 0 {
            "[system]"@
        } else {
            "[system: "@ + subtype + "]"@
        }
    } else {
        text
    };
    MessageV { role: MessageRole::System, text: shown, timestamp: ts, tool_name: None }
}

fn system_message(v: &JsonValue, ts: Option<i64>) -> (m: Message)
    ensures
        m@ == spec_system_message(v@, ts),
{
    let subtype = match v.get_str("subtype") {
        Some(s) => s.clone(),
        None => String::new(),
    };
    let raw = content_or_null(v);
    let text = match &raw {
        JsonValue::Str(s) => s.clone(),
        JsonValue::Arr(_) => extract_text_from_content(&raw),
        JsonValue::Obj(_) => extract_text_from_content(&raw),
        _ => String::new(),
    };
    let shown = if text.as_str().is_empty() {
        if subtype.as_str().is_empty() {
            let r = "[system]".to_owned();
            r
        } else {
            let mut r = "[system: ".to_owned();
            r.append(subtype.as_str());
            r.append("]");
            r
        }
    } else {
        text
    };
    let m = Message { role: MessageRole::System, text: shown, timestamp: ts, tool_name: None };
    assert(m@ =~= spec_system_message(v@, ts));
    m
}

/// The messages one record yields, by its `type`; unknown types yield none.
pub open spec fn spec_record_messages(v: JsonV) -> Seq<MessageV> {
    let t = or_empty(spec_get_str(v, "type"@));
    let ts = spec_record_ts(v);
    if t == "user"@ {
        spec_user_messages(v, ts)
    } else if t == "assistant"@ {
        spec_assistant_messages(v, ts)
    } else if t == "system"@ {
        seq![spec_system_message(v, ts)]
    } else {
        Seq::empty()
    }
}

/// The messages one raw log line yields: none for blank lines, lines that are
/// not JSON, and records of unknown type.
pub open spec fn spec_parse_line(line: Seq<char>) -> Seq<MessageV> {
    let t = spec_trim(line);
    if t.len() == 0 {
        Seq::empty()
    } else {
        match parse_json_spec(t) {
            None => Seq::empty(),
            Some(v) => spec_record_messages(v),
        }
    }
}

/// Parse a single JSONL line into zero or more messages.
///
/// Returns an empty vector for blank lines, parse errors, and unknown record
/// types.
pub fn parse_jsonl_line(line: &str) -> (msgs: Vec<Message>)
    ensures
        msgs@.map_values(|m: Message| m@) == spec_parse_line(line@),
{
    let chars = str_chars(line);
    let trimmed_chars = trim_chars(&chars);
    if trimmed_chars.len() == 0 {
        let msgs: Vec<Message> = Vec::new();
        assert(msgs@.map_values(|m: Message| m@) =~= spec_parse_line(line@));
        return msgs;
    }
    let trimmed = chars_to_string(trimmed_chars.as_slice());
    match parse_json(trimmed.as_str()) {
        None => {
            let msgs: Vec<Message> = Vec::new();
            assert(msgs@.map_values(|m: Message| m@) =~= spec_parse_line(line@));
            msgs
        },
        Some(v) => {
            let ts = get_record_ts(&v);
            proof {
                reveal_strlit("user");
                reveal_strlit("assistant");
                reveal_strlit("system");
            }
            match v.get_str("type") {
                Some(t) => {
                    if str_eq(t.as_str(), "user") {
                        user_messages(&v, ts)
                    } else if str_eq(t.as_str(), "assistant") {
                        assistant_messages(&v, ts)
                    } else if str_eq(t.as_str(), "system") {
                        let m = system_message(&v, ts);
                        let mut msgs: Vec<Message> = Vec::new();
                        msgs.push(m);
                        assert(msgs@.map_values(|m: Message| m@) =~= seq![
                            spec_system_message(v@, ts),
                        ]);
                        msgs
                    } else {
                        let msgs: Vec<Message> = Vec::new();
                        assert(msgs@.map_values(|m: Message| m@) =~= Seq::<MessageV>::empty());
                        msgs
                    }
                },
                None => {
                    let msgs: Vec<Message> = Vec::new();
                    assert(or_empty(spec_get_str(v@, "type"@)).len() == 0);
                    assert(msgs@.map_values(|m: Message| m@) =~= Seq::<MessageV>::empty());
                    msgs
                },
            }
        },
    }
}

/// The messages of a whole session file: each line's messages, in line order.
pub open spec fn spec_parse_lines(lines: Seq<Seq<char>>) -> Seq<MessageV>
    decreases lines.len(),
{
    if lines.len() == 0 {
        Seq::empty()
    } else {
        spec_parse_line(lines[0]) + spec_parse_lines(lines.drop_first())
    }
}

pub open spec fn spec_parse_session(content: Seq<char>) -> Seq<MessageV> {
    spec_parse_lines(crate::strutil::spec_lines(content))
}

/// Parse a whole session file held in memory into its messages.
pub fn parse_session_content(content: &str) -> (msgs: Vec<Message>)
    ensures
        msgs@.map_values(|m: Message| m@) == spec_parse_session(content@),
{
    let lines = split_lines(content);
    let ghost lvs = lines@.map_values(|x: String| x@);
    let mut msgs: Vec<Message> = Vec::new();
    let n = lines.len();
    proof {
        assert(lvs.skip(0) =~= lvs);
        assert(msgs@.map_values(|m: Message| m@) =~= Seq::<MessageV>::empty());
    }
    for i in 0..n
        invariant
            n == lines@.len(),
            lvs == lines@.map_values(|x: String| x@),
            lvs == crate::strutil::spec_lines(content@),
            spec_parse_lines(lvs) == msgs@.map_values(|m: Message| m@) + spec_parse_lines(
                lvs.skip(i as int),
            ),
    {
        proof {
            assert(lvs.skip(i as int)[0] == lvs[i as int]);
            assert(lvs.skip(i as int).drop_first() =~= lvs.skip(i + 1 as int));
        }
        let ghost old_msgs = msgs@;
        let mut line_msgs = parse_jsonl_line(lines[i].as_str());
        let ghost line_vs = line_msgs@.map_values(|m: Message| m@);
        let m = line_msgs.len();
        for j in 0..m
            invariant
                m == line_vs.len(),
                line_msgs@.len() == m,
                forall|k: int| 0 <= k < m ==> (#[trigger] line_msgs@[k])@ == line_vs[k],
                msgs@.map_values(|q: Message| q@) == old_msgs.map_values(|q: Message| q@)
                    + line_vs.subrange(0, j as int),
        {
            let one = crate::models::clone_message(&line_msgs[j]);
            let ghost pre_msgs = msgs@;
            let ghost one_v = one@;
            msgs.push(one);
            proof {
                assert(msgs@ == pre_msgs.push(one));
                assert(msgs@.map_values(|q: Message| q@) =~= pre_msgs.map_values(
                    |q: Message| q@,
                ).push(one_v));
                assert((line_msgs@[j as int])@ == line_vs[j as int]);
                assert(one_v == line_vs[j as int]);
                assert(line_vs.subrange(0, (j + 1) as int) =~= line_vs.subrange(0, j as int).push(
                    line_vs[j as int],
                ));
                assert(msgs@.map_values(|q: Message| q@) =~= old_msgs.map_values(|q: Message| q@)
                    + line_vs.subrange(0, j + 1 as int));
            }
        }
        proof {
            assert(line_vs.subrange(0, m as int) =~= line_vs);
            assert(old_msgs.map_values(|q: Message| q@) + (line_vs + spec_parse_lines(
                lvs.skip(i + 1 as int),
            )) =~= (old_msgs.map_values(|q: Message| q@) + line_vs) + spec_parse_lines(
                lvs.skip(i + 1 as int),
            ));
        }
    }
    assert(lvs.skip(n as int).len() == 0);
    assert(msgs@.map_values(|m: Message| m@) + spec_parse_lines(lvs.skip(n as int)) =~= msgs@
        .map_values(|m: Message| m@));
    msgs
}

/// One sidecar index entry read into a session listing.
pub open spec fn spec_parse_index_entry(entry: JsonV, project_name: Seq<char>) -> SessionInfoV {
    SessionInfoV {
        session_id: or_empty(spec_get_str(entry, "sessionId"@)),
        project_name: project_name,
        preview: spec_truncate(or_empty(spec_get_str(entry, "firstPrompt"@)), 200),
        timestamp: match spec_get_str(entry, "created"@) {
            Some(s) => spec_parse_timestamp(s),
            None => None,
        },
        message_count: (match spec_get(entry, "messageCount"@) {
            Some(c) => match spec_as_u64(c) {
                Some(u) => u,
                None => 0,
            },
            None => 0,
        }) as usize,
        git_branch: or_empty(spec_get_str(entry, "gitBranch"@)),
        summary: or_empty(spec_get_str(entry, "summary"@)),
    }
}

/// Parse a single entry of a sidecar metadata file into a session listing.
pub fn parse_index_entry(entry: &JsonValue, project_name: &str) -> (r: SessionInfo)
    ensures
        r@ == spec_parse_index_entry(entry@, project_name@),
{
    let session_id = match entry.get_str("sessionId") {
        Some(s) => s.clone(),
        None => String::new(),
    };
    let preview = match entry.get_str("firstPrompt") {
        Some(s) => truncate_str(s.as_str(), 200),
        None => {
            let e = String::new();
            assert(e@ =~= spec_truncate(Seq::<char>::empty(), 200));
            e
        },
    };
    let timestamp = match entry.get_str("created") {
        Some(s) => parse_timestamp_str(s.as_str()),
        None => None,
    };
    let message_count = match entry.get("messageCount") {
        Some(c) => match c.as_u64() {
            Some(u) => u as usize,
            None => 0,
        },
        None => 0,
    };
    let git_branch = match entry.get_str("gitBranch") {
        Some(s) => s.clone(),
        None => String::new(),
    };
    let summary = match entry.get_str("summary") {
        Some(s) => s.clone(),
        None => String::new(),
    };
    let r = SessionInfo {
        session_id,
        project_name: project_name.to_owned(),
        preview,
        timestamp,
        message_count,
        git_branch,
        summary,
    };
    assert(r@ =~= spec_parse_index_entry(entry@, project_name@));
    r
}

/// The scan state over a session file: the first user turn seen so far and
/// the number of user and assistant turns.
pub struct SessionScanV {
    pub preview: Seq<char>,
    pub timestamp: Option<i64>,
    pub git_branch: Seq<char>,
    pub message_count: int,
}

pub open spec fn spec_scan_line(st: SessionScanV, line: Seq<char>) -> SessionScanV {
    let t = spec_trim(line);
    if t.len() == 0 {
        st
    } else {
        match parse_json_spec(t) {
            None => st,
            Some(v) => {
                let ty = or_empty(spec_get_str(v, "type"@));
                let count = if ty == "user"@ || ty == "assistant"@ {
                    st.message_count + 1
                } else {
                    st.message_count
                };
                if ty == "user"@ && st.preview.len() == 0 {
                    SessionScanV {
                        preview: spec_truncate(spec_extract_text(spec_content_of(v)), 200),
                        timestamp: spec_record_ts(v),
                        git_branch: or_empty(spec_get_str(v, "gitBranch"@)),
                        message_count: count,
                    }
                } else {
                    SessionScanV { message_count: count, ..st }
                }
            },
        }
    }
}

pub open spec fn spec_scan_lines(st: SessionScanV, lines: Seq<Seq<char>>) -> SessionScanV
    decreases lines.len(),
{
    if lines.len() == 0 {
        st
    } else {
        spec_scan_lines(spec_scan_line(st, lines[0]), lines.drop_first())
    }
}

pub open spec fn spec_scan_init() -> SessionScanV {
    SessionScanV {
        preview: Seq::empty(),
        timestamp: None,
        git_branch: Seq::empty(),
        message_count: 0,
    }
}

/// What scanning a whole session file yields: the first user turn's preview,
/// timestamp and branch, and the user/assistant turn count.
pub open spec fn spec_session_scan(content: Seq<char>) -> SessionScanV {
    spec_scan_lines(spec_scan_init(), crate::strutil::spec_lines(content))
}

/// Derive a session listing from a session file's content alone, as the
/// fallback when no sidecar metadata is available.
pub fn session_info_from_content(session_id: &str, project_name: &str, content: &str) -> (r:
    SessionInfo)
    ensures
        r.session_id@ == session_id@,
        r.project_name@ == project_name@,
        r@.preview == spec_session_scan(content@).preview,
        r@.timestamp == spec_session_scan(content@).timestamp,
        r@.git_branch == spec_session_scan(content@).git_branch,
        r@.message_count == spec_session_scan(content@).message_count,
        r@.summary == Seq::<char>::empty(),
{
    let lines = split_lines(content);
    let ghost lvs = lines@.map_values(|x: String| x@);
    let n = lines.len();
    let mut preview = String::new();
    let mut timestamp: Option<i64> = None;
    let mut git_branch = String::new();
    let mut message_count: usize = 0;
    proof {
        assert(lvs.skip(0) =~= lvs);
    }
    for i in 0..n
        invariant
            n == lines@.len(),
            lvs == lines@.map_values(|x: String| x@),
            lvs == crate::strutil::spec_lines(content@),
            message_count <= i,
            spec_scan_lines(spec_scan_init(), lvs) == spec_scan_lines(
                SessionScanV {
                    preview: preview@,
                    timestamp: timestamp,
                    git_branch: git_branch@,
                    message_count: message_count as int,
                },
                lvs.skip(i as int),
            ),
    {
        proof {
            assert(lvs.skip(i as int)[0] == lvs[i as int]);
            assert(lvs.skip(i as int).drop_first() =~= lvs.skip(i + 1 as int));
            reveal_strlit("user");
            reveal_strlit("assistant");
        }
        let line = lines[i].as_str();
        let chars = str_chars(line);
        let trimmed_chars = trim_chars(&chars);
        if trimmed_chars.len() > 0 {
            let trimmed = chars_to_string(trimmed_chars.as_slice());
            match parse_json(trimmed.as_str()) {
                Some(v) => {
                    let is_user = match v.get_str("type") {
                        Some(t) => str_eq(t.as_str(), "user"),
                        None => false,
                    };
                    let is_assistant = match v.get_str("type") {
                        Some(t) => str_eq(t.as_str(), "assistant"),
                        None => false,
                    };
                    if is_user || is_assistant {
                        message_count = message_count + 1;
                    }
                    if is_user && preview.as_str().is_empty() {
                        let msg_content = content_of(&v);
                        let text = extract_text_from_content(&msg_content);
                        preview = truncate_str(text.as_str(), 200);
                        timestamp = get_record_ts(&v);
                        git_branch = match v.get_str("gitBranch") {
                            Some(s) => s.clone(),
                            None => String::new(),
                        };
                    }
                },
                None => {},
            }
        }
    }
    assert(lvs.skip(n as int).len() == 0);
    let r = SessionInfo {
        session_id: session_id.to_owned(),
        project_name: project_name.to_owned(),
        preview,
        timestamp,
        message_count,
        git_branch,
        summary: String::new(),
    };
    r
}

/// The ordering key of a session: its timestamp, an absent one sorting last.
pub open spec fn ts_key(t: Option<i64>) -> int {
    match t {
        Some(x) => x as int,
        None => i64::MIN as int,
    }
}

/// Newest first.
pub open spec fn sessions_sorted_desc(s: Seq<SessionInfo>) -> bool {
    forall|i: int, j: int|
        0 <= i < j < s.len() ==> ts_key(s[i]@.timestamp) >= ts_key(s[j]@.timestamp)
}

fn ts_key_exec(t: Option<i64>) -> (r: i64)
    ensures
        r as int == ts_key(t),
{
    match t {
        Some(x) => x,
        None => i64::MIN,
    }
}

/// Sort sessions newest first; equal timestamps keep their relative order
/// unspecified. The result holds exactly the given sessions.
pub fn sort_sessions_desc(v: Vec<SessionInfo>) -> (r: Vec<SessionInfo>)
    ensures
        r@.to_multiset() == v@.to_multiset(),
        sessions_sorted_desc(r@),
{
    broadcast use vstd::seq_lib::group_to_multiset_ensures;

    let mut work = v;
    let mut out: Vec<SessionInfo> = Vec::new();
    let ghost orig = work@;
    assert(out@.to_multiset().add(work@.to_multiset()) =~= orig.to_multiset());
    while work.len() > 0
        invariant
            out@.to_multiset().add(work@.to_multiset()) == orig.to_multiset(),
            sessions_sorted_desc(out@),
            out@.len() > 0 ==> forall|k: int|
                0 <= k < work@.len() ==> ts_key((#[trigger] work@[k])@.timestamp) <= ts_key(
                    out@.last()@.timestamp,
                ),
        decreases work.len(),
    {
        broadcast use vstd::seq_lib::group_to_multiset_ensures;

        // pick the first maximal timestamp
        let mut best: usize = 0;
        let n = work.len();
        let mut best_key = ts_key_exec(work[0].timestamp);
        for k in 1..n
            invariant
                n == work@.len(),
                n > 0,
                best < k,
                best_key as int == ts_key(work@[best as int]@.timestamp),
                forall|j: int|
                    0 <= j < k ==> ts_key((#[trigger] work@[j])@.timestamp) <= best_key as int,
        {
            let key = ts_key_exec(work[k].timestamp);
            if key > best_key {
                best = k;
                best_key = key;
            }
        }
        let ghost pre_work = work@;
        let ghost pre_out = out@;
        let x = work.remove(best);
        out.push(x);
        proof {
            assert(out@.to_multiset() =~= pre_out.to_multiset().insert(x));
            assert(work@.to_multiset() =~= pre_work.to_multiset().remove(x));
            assert(pre_work.to_multiset().count(x) > 0);
            assert(out@.to_multiset().add(work@.to_multiset()) =~= pre_out.to_multiset().add(
                pre_work.to_multiset(),
            ));
            assert forall|k: int| 0 <= k < work@.len() implies ts_key(
                (#[trigger] work@[k])@.timestamp,
            ) <= ts_key(out@.last()@.timestamp) by {
                if k < best {
                    assert(work@[k] == pre_work[k]);
                } else {
                    assert(work@[k] == pre_work[k + 1]);
                }
            }
            assert(sessions_sorted_desc(out@));
        }
    }
    assert(work@.to_multiset() =~= Multiset::<SessionInfo>::empty());
    assert(out@.to_multiset() =~= orig.to_multiset());
    out
}

/// The session listings a sidecar metadata file yields, in entry order.
pub open spec fn spec_index_entries(items: Seq<JsonV>, project: Seq<char>) -> Seq<SessionInfoV>
    decreases items.len(),
{
    if items.len() == 0 {
        Seq::empty()
    } else {
        seq![spec_parse_index_entry(items[0], project)] + spec_index_entries(
            items.drop_first(),
            project,
        )
    }
}

pub open spec fn spec_index_sessions(content: Seq<char>, project: Seq<char>) -> Seq<SessionInfoV> {
    match parse_json_spec(content) {
        None => Seq::empty(),
        Some(v) => match spec_get(v, "entries"@) {
            Some(JsonV::Arr(items)) => spec_index_entries(items, project),
            _ => Seq::empty(),
        },
    }
}

/// The session listings of one project, read from its sidecar metadata file,
/// newest first.
pub fn list_sessions_from_index(content: &str, project_name: &str) -> (r: Vec<SessionInfo>)
    ensures
        sessions_sorted_desc(r@),
        exists|pv: Seq<SessionInfo>|
            {
                &&& pv.map_values(|s: SessionInfo| s@) == spec_index_sessions(
                    content@,
                    project_name@,
                )
                &&& r@.to_multiset() == #[trigger] pv.to_multiset()
            },
{
    let mut sessions: Vec<SessionInfo> = Vec::new();
    match parse_json(content) {
        None => {
            assert(sessions@.map_values(|s: SessionInfo| s@) =~= spec_index_sessions(
                content@,
                project_name@,
            ));
        },
        Some(v) => {
            match v.get("entries") {
                Some(JsonValue::Arr(items)) => {
                    let ghost ivs = json_view_seq(items@);
                    let n = items.len();
                    proof {
                        lemma_json_view_seq(items@);
                        assert(ivs.skip(0) =~= ivs);
                        assert(sessions@.map_values(|s: SessionInfo| s@) =~= Seq::<
                            SessionInfoV,
                        >::empty());
                    }
                    for i in 0..n
                        invariant
                            n == items@.len(),
                            ivs == json_view_seq(items@),
                            ivs.len() == n,
                            spec_index_entries(ivs, project_name@) == sessions@.map_values(
                                |s: SessionInfo| s@,
                            ) + spec_index_entries(ivs.skip(i as int), project_name@),
                    {
                        proof {
                            lemma_json_view_seq(items@);
                            assert(ivs.skip(i as int)[0] == ivs[i as int]);
                            assert(ivs.skip(i as int).drop_first() =~= ivs.skip(i + 1 as int));
                        }
                        let ghost old_s = sessions@;
                        let info = parse_index_entry(&items[i], project_name);
                        sessions.push(info);
                        proof {
                            assert(sessions@.map_values(|s: SessionInfo| s@) =~= old_s.map_values(
                                |s: SessionInfo| s@,
                            ).push(sessions@.last()@));
                            assert(old_s.map_values(|s: SessionInfo| s@) + (seq![sessions@.last()@]
                                + spec_index_entries(ivs.skip(i + 1 as int), project_name@)) =~= (
                            old_s.map_values(|s: SessionInfo| s@).push(sessions@.last()@))
                                + spec_index_entries(ivs.skip(i + 1 as int), project_name@));
                        }
                    }
                    proof {
                        assert(ivs.skip(n as int).len() == 0);
                        assert(sessions@.map_values(|s: SessionInfo| s@) + spec_index_entries(
                            ivs.skip(n as int),
                            project_name@,
                        ) =~= sessions@.map_values(|s: SessionInfo| s@));
                    }
                },
                _ => {
                    assert(sessions@.map_values(|s: SessionInfo| s@) =~= spec_index_sessions(
                        content@,
                        project_name@,
                    ));
                },
            }
        },
    }
    let ghost pv = sessions@;
    let r = sort_sessions_desc(sessions);
    proof {
        assert(pv.map_values(|s: SessionInfo| s@) == spec_index_sessions(content@, project_name@)
            && r@.to_multiset() == pv.to_multiset());
    }
    r
}

/// The session listings derived from the session files themselves (the
/// fallback without a sidecar), newest first. Each file is given by its
/// session id and its content.
pub open spec fn spec_file_sessions(
    files: Seq<(Seq<char>, Seq<char>)>,
    project: Seq<char>,
) -> Seq<SessionInfoV>
    decreases files.len(),
{
    if files.len() == 0 {
        Seq::empty()
    } else {
        let scan = spec_session_scan(files[0].1);
        seq![
            SessionInfoV {
                session_id: files[0].0,
                project_name: project,
                preview: scan.preview,
                timestamp: scan.timestamp,
                message_count: scan.message_count as usize,
                git_branch: scan.git_branch,
                summary: Seq::empty(),
            },
        ] + spec_file_sessions(files.drop_first(), project)
    }
}

/// Build session listings for files scanned from a project directory.
pub fn list_sessions_from_files(files: &Vec<(String, String)>, project_name: &str) -> (r: Vec<
    SessionInfo,
>)
    ensures
        sessions_sorted_desc(r@),
        exists|pv: Seq<SessionInfo>|
            {
                &&& pv.map_values(|s: SessionInfo| s@) == spec_file_sessions(
                    files@.map_values(|f: (String, String)| (f.0@, f.1@)),
                    project_name@,
                )
                &&& r@.to_multiset() == #[trigger] pv.to_multiset()
            },
{
    let ghost fvs = files@.map_values(|f: (String, String)| (f.0@, f.1@));
    let mut sessions: Vec<SessionInfo> = Vec::new();
    let n = files.len();
    proof {
        assert(fvs.skip(0) =~= fvs);
        assert(sessions@.map_values(|s: SessionInfo| s@) =~= Seq::<SessionInfoV>::empty());
    }
    for i in 0..n
        invariant
            n == files@.len(),
            fvs == files@.map_values(|f: (String, String)| (f.0@, f.1@)),
            fvs.len() == n,
            spec_file_sessions(fvs, project_name@) == sessions@.map_values(|s: SessionInfo| s@)
                + spec_file_sessions(fvs.skip(i as int), project_name@),
    {
        proof {
            assert(fvs.skip(i as int)[0] == fvs[i as int]);
            assert(fvs.skip(i as int).drop_first() =~= fvs.skip(i + 1 as int));
        }
        let ghost old_s = sessions@;
        let info = session_info_from_content(
            files[i].0.as_str(),
            project_name,
            files[i].1.as_str(),
        );
        sessions.push(info);
        proof {
            assert(sessions@.last()@ =~= spec_file_sessions(fvs.skip(i as int), project_name@)[0]);
            assert(sessions@.map_values(|s: SessionInfo| s@) =~= old_s.map_values(
                |s: SessionInfo| s@,
            ).push(sessions@.last()@));
            assert(old_s.map_values(|s: SessionInfo| s@) + (seq![sessions@.last()@]
                + spec_file_sessions(fvs.skip(i + 1 as int), project_name@)) =~= (old_s.map_values(
                |s: SessionInfo| s@,
            ).push(sessions@.last()@)) + spec_file_sessions(fvs.skip(i + 1 as int), project_name@));
        }
    }
    proof {
        assert(fvs.skip(n as int).len() == 0);
        assert(sessions@.map_values(|s: SessionInfo| s@) + spec_file_sessions(
            fvs.skip(n as int),
            project_name@,
        ) =~= sessions@.map_values(|s: SessionInfo| s@));
    }
    let ghost pv = sessions@;
    let r = sort_sessions_desc(sessions);
    proof {
        assert(pv.map_values(|s: SessionInfo| s@) == spec_file_sessions(fvs, project_name@) && r@
            .to_multiset() == pv.to_multiset());
    }
    r
}

/// The authoritative original path a sidecar metadata file names, if any: its
/// top-level `originalPath`, else the first entry's `projectPath`.
pub open spec fn spec_sidecar_original_path(content: Seq<char>) -> Option<Seq<char>> {
    match parse_json_spec(content) {
        None => None,
        Some(v) => match spec_get_str(v, "originalPath"@) {
            Some(p) => Some(p),
            None => match spec_get(v, "entries"@) {
                Some(JsonV::Arr(items)) => if items.len() > 0 {
                    spec_get_str(items[0], "projectPath"@)
                } else {
                    None
                },
                _ => None,
            },
        },
    }
}

/// Read the original path out of a sidecar metadata file's content.
pub fn original_path_from_sidecar(content: &str) -> (r: Option<String>)
    ensures
        match r {
            Some(p) => spec_sidecar_original_path(content@) == Some(p@),
            None => spec_sidecar_original_path(content@) is None,
        },
{
    match parse_json(content) {
        None => None,
        Some(v) => {
            match v.get_str("originalPath") {
                Some(p) => Some(p.clone()),
                None => {
                    match v.get("entries") {
                        Some(JsonValue::Arr(items)) => {
                            if items.len() > 0 {
                                proof {
                                    lemma_json_view_seq(items@);
                                }
                                match items[0].get_str("projectPath") {
                                    Some(p) => Some(p.clone()),
                                    None => None,
                                }
                            } else {
                                proof {
                                    lemma_json_view_seq(items@);
                                }
                                None
                            }
                        },
                        _ => None,
                    }
                },
            }
        },
    }
}

/// A record whose `type` is none of `user`, `assistant` and `system` yields no
/// messages, whatever else the line holds.
pub proof fn lemma_unknown_type_yields_nothing(line: Seq<char>, v: JsonV)
    requires
        parse_json_spec(spec_trim(line)) == Some(v),
        or_empty(spec_get_str(v, "type"@)) != "user"@,
        or_empty(spec_get_str(v, "type"@)) != "assistant"@,
        or_empty(spec_get_str(v, "type"@)) != "system"@,
    ensures
        spec_parse_line(line).len() == 0,
{
}

/// A thinking block contributes nothing to the joined text: an array of a
/// `thinking` block followed by two `text` blocks with texts `a` and `b`
/// joins to exactly `a`, one newline, `b` — order preserved.
pub proof fn lemma_thinking_excluded(blocks: Seq<JsonV>, a: Seq<char>, b: Seq<char>)
    requires
        blocks.len() == 3,
        spec_get_str(blocks[0], "type"@) == Some("thinking"@),
        spec_get_str(blocks[1], "type"@) == Some("text"@),
        spec_get_str(blocks[1], "text"@) == Some(a),
        spec_get_str(blocks[2], "type"@) == Some("text"@),
        spec_get_str(blocks[2], "text"@) == Some(b),
    ensures
        spec_extract_text(JsonV::Arr(blocks)) == a + seq!['\n'] + b,
{
    reveal_strlit("thinking");
    reveal_strlit("text");
    assert("thinking"@.len() == 8);
    assert("text"@.len() == 4);
    assert("thinking"@ != "text"@);
    assert(spec_block_text(blocks[0]) is None);
    assert(spec_block_text(blocks[1]) == Some(a));
    assert(spec_block_text(blocks[2]) == Some(b));
    let r1 = blocks.drop_first();
    let r2 = r1.drop_first();
    let r3 = r2.drop_first();
    assert(r1[0] == blocks[1]);
    assert(r2[0] == blocks[2]);
    assert(r3.len() == 0);
    assert(spec_text_parts(r3) =~= Seq::<Seq<char>>::empty());
    assert(spec_text_parts(r2) =~= seq![b]);
    assert(spec_text_parts(r1) =~= seq![a, b]);
    assert(spec_text_parts(blocks) =~= seq![a, b]);
    assert(seq![a, b].drop_first() =~= seq![b]);
    assert(spec_join_nl(seq![b]) == b);
    assert(spec_join_nl(seq![a, b]) == a + seq!['\n'] + b);
}

} // verus!
