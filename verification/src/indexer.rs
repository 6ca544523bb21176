//! The incremental index builder: given the scanned directory tree as plain
//! values — per project its encoded directory name, optional sidecar metadata
//! text, and session files with their modification times and contents — it
//! brings the persistent store up to date, re-parsing only files whose
//! modification time differs from the stored one.
use vstd::prelude::*;
use crate::json::{
    parse_json, parse_json_spec, spec_get, spec_get_str, spec_as_i64, JsonValue, JsonV,
    json_view_seq, lemma_json_view_seq,
};
use crate::parser::{
    or_empty, spec_decode_project_path, decode_project_path, spec_extract_text, spec_content_of,
    content_of, extract_text_from_content,
};
use crate::store::{
    SessionIndex, SessionRecord, SessionRecordV, PromptRecord, PromptRecordV, IndexError,
    SearchableSession, spec_dedup_prompts, search_view_ok, rows_of,
};
use crate::strutil::{spec_lines, spec_trim, split_lines, str_chars, trim_chars, chars_to_string, str_eq};

verus! {

/// One session file, read from the tree: its id (the file name's stem), its
/// modification time in epoch milliseconds, and its full content.
pub struct SessionFileInput {
    pub session_id: String,
    pub mtime_millis: i64,
    pub content: String,
}

#[verifier::ext_equal]
pub struct SessionFileV {
    pub session_id: Seq<char>,
    pub mtime_millis: i64,
    pub content: Seq<char>,
}

impl View for SessionFileInput {
    type V = SessionFileV;

    open spec fn view(&self) -> SessionFileV {
        SessionFileV {
            session_id: self.session_id@,
            mtime_millis: self.mtime_millis,
            content: self.content@,
        }
    }
}

/// One project directory, read from the tree: its encoded name, the sidecar
/// metadata file's content where one exists, and its session files.
pub struct ProjectInput {
    pub dir_name: String,
    pub sidecar: Option<String>,
    pub files: Vec<SessionFileInput>,
}

#[verifier::ext_equal]
pub struct ProjectV {
    pub dir_name: Seq<char>,
    pub sidecar: Option<Seq<char>>,
    pub files: Seq<SessionFileV>,
}

impl View for ProjectInput {
    type V = ProjectV;

    open spec fn view(&self) -> ProjectV {
        ProjectV {
            dir_name: self.dir_name@,
            sidecar: match self.sidecar {
                Some(ref s) => Some(s@),
                None => None,
            },
            files: self.files@.map_values(|f: SessionFileInput| f@),
        }
    }
}

/// Per-session metadata read from a sidecar file.
pub struct IndexEntryMeta {
    pub project_path: Option<String>,
    pub git_branch: String,
    pub summary: String,
    pub first_prompt: String,
    pub message_count: i64,
    pub created_at: String,
    pub modified_at: String,
}

#[verifier::ext_equal]
pub struct IndexEntryMetaV {
    pub project_path: Option<Seq<char>>,
    pub git_branch: Seq<char>,
    pub summary: Seq<char>,
    pub first_prompt: Seq<char>,
    pub message_count: i64,
    pub created_at: Seq<char>,
    pub modified_at: Seq<char>,
}

impl View for IndexEntryMeta {
    type V = IndexEntryMetaV;

    open spec fn view(&self) -> IndexEntryMetaV {
        IndexEntryMetaV {
            project_path: match self.project_path {
                Some(ref p) => Some(p@),
                None => None,
            },
            git_branch: self.git_branch@,
            summary: self.summary@,
            first_prompt: self.first_prompt@,
            message_count: self.message_count,
            created_at: self.created_at@,
            modified_at: self.modified_at@,
        }
    }
}

/// The prompt one log line contributes: the joined text of a non-empty user
/// turn, with the record's raw timestamp text.
pub open spec fn spec_prompt_of_line(line: Seq<char>) -> Option<PromptRecordV> {
    let t = spec_trim(line);
    if t.len() == 0 {
        None
    } else {
        match parse_json_spec(t) {
            None => None,
            Some(v) => {
                if or_empty(spec_get_str(v, "type"@)) == "user"@ {
                    let text = spec_extract_text(spec_content_of(v));
                    if text.len() > 0 {
                        Some(
                            PromptRecordV {
                                prompt: text,
                                timestamp: spec_get_str(v, "timestamp"@),
                            },
                        )
                    } else {
                        None
                    }
                } else {
                    None
                }
            },
        }
    }
}

pub open spec fn spec_prompts_of_lines(lines: Seq<Seq<char>>) -> Seq<PromptRecordV>
    decreases lines.len(),
{
    if lines.len() == 0 {
        Seq::empty()
    } else {
        let rest = spec_prompts_of_lines(lines.drop_first());
        match spec_prompt_of_line(lines[0]) {
            Some(p) => seq![p] + rest,
            None => rest,
        }
    }
}

/// Every user prompt a session file holds, in line order.
pub open spec fn spec_extract_prompts(content: Seq<char>) -> Seq<PromptRecordV> {
    spec_prompts_of_lines(spec_lines(content))
}

/// Extract the ordered user prompts of a session file's content.
pub fn extract_user_prompts(content: &str) -> (r: Vec<PromptRecord>)
    ensures
        r@.map_values(|p: PromptRecord| p@) == spec_extract_prompts(content@),
{
    let lines = split_lines(content);
    let ghost lvs = lines@.map_values(|x: String| x@);
    let mut prompts: Vec<PromptRecord> = Vec::new();
    let n = lines.len();
    proof {
        assert(lvs.skip(0) =~= lvs);
        assert(prompts@.map_values(|p: PromptRecord| p@) =~= Seq::<PromptRecordV>::empty());
    }
    for i in 0..n
        invariant
            n == lines@.len(),
            lvs == lines@.map_values(|x: String| x@),
            lvs == spec_lines(content@),
            spec_prompts_of_lines(lvs) == prompts@.map_values(|p: PromptRecord| p@)
                + spec_prompts_of_lines(lvs.skip(i as int)),
    {
        proof {
            assert(lvs.skip(i as int)[0] == lvs[i as int]);
            assert(lvs.skip(i as int).drop_first() =~= lvs.skip(i + 1 as int));
            reveal_strlit("user");
        }
        let ghost old_p = prompts@;
        let line = lines[i].as_str();
        let chars = str_chars(line);
        let trimmed_chars = trim_chars(&chars);
        if trimmed_chars.len() > 0 {
            let trimmed = chars_to_string(trimmed_chars.as_slice());
            match parse_json(trimmed.as_str()) {
                Some(v) => {
                    let is_user = match v.get_str("type") {
                        Some(t) => str_eq(t.as_str(), "user"),
                        None => false,
                    };
                    if is_user {
                        let msg_content = content_of(&v);
                        let text = extract_text_from_content(&msg_content);
                        if !text.as_str().is_empty() {
                            let timestamp = match v.get_str("timestamp") {
                                Some(s) => Some(s.clone()),
                                None => None,
                            };
                            prompts.push(PromptRecord { prompt: text, timestamp });
                            proof {
                                assert(prompts@.map_values(|p: PromptRecord| p@) =~= old_p
                                    .map_values(|p: PromptRecord| p@).push(prompts@.last()@));
                                assert(prompts@.last()@ =~= spec_prompt_of_line(
                                    lvs[i as int],
                                ).unwrap());
                                assert(old_p.map_values(|p: PromptRecord| p@) + (seq![
                                    prompts@.last()@,
                                ] + spec_prompts_of_lines(lvs.skip(i + 1 as int))) =~= (
                                old_p.map_values(|p: PromptRecord| p@).push(prompts@.last()@))
                                    + spec_prompts_of_lines(lvs.skip(i + 1 as int)));
                            }
                        }
                    }
                },
                None => {},
            }
        }
    }
    proof {
        assert(lvs.skip(n as int).len() == 0);
        assert(prompts@.map_values(|p: PromptRecord| p@) + spec_prompts_of_lines(lvs.skip(n as int))
            =~= prompts@.map_values(|p: PromptRecord| p@));
    }
    prompts
}

/// What one sidecar entry contributes to the metadata lookup: nothing when it
/// names no session id.
pub open spec fn spec_meta_of_entry(e: JsonV) -> Option<(Seq<char>, IndexEntryMetaV)> {
    let sid = or_empty(spec_get_str(e, "sessionId"@));
    if sid.len() == 0 {
        None
    } else {
        Some(
            (
                sid,
                IndexEntryMetaV {
                    project_path: spec_get_str(e, "projectPath"@),
                    git_branch: or_empty(spec_get_str(e, "gitBranch"@)),
                    summary: or_empty(spec_get_str(e, "summary"@)),
                    first_prompt: or_empty(spec_get_str(e, "firstPrompt"@)),
                    message_count: match spec_get(e, "messageCount"@) {
                        Some(c) => match spec_as_i64(c) {
                            Some(m) => m,
                            None => 0,
                        },
                        None => 0,
                    },
                    created_at: or_empty(spec_get_str(e, "created"@)),
                    modified_at: or_empty(spec_get_str(e, "modified"@)),
                },
            ),
        )
    }
}

pub open spec fn spec_meta_entries(items: Seq<JsonV>) -> Seq<(Seq<char>, IndexEntryMetaV)>
    decreases items.len(),
{
    if items.len() == 0 {
        Seq::empty()
    } else {
        let rest = spec_meta_entries(items.drop_first());
        match spec_meta_of_entry(items[0]) {
            Some(kv) => seq![kv] + rest,
            None => rest,
        }
    }
}

/// The metadata lookup a sidecar file yields: empty when the file is absent,
/// unreadable, or holds no entry list.
pub open spec fn spec_sidecar_meta(sidecar: Option<Seq<char>>) -> Seq<(Seq<char>, IndexEntryMetaV)> {
    match sidecar {
        None => Seq::empty(),
        Some(c) => match parse_json_spec(c) {
            None => Seq::empty(),
            Some(v) => match spec_get(v, "entries"@) {
                Some(JsonV::Arr(items)) => spec_meta_entries(items),
                _ => Seq::empty(),
            },
        },
    }
}

/// The metadata of a session id: the last entry naming it wins.
pub open spec fn spec_meta_lookup(
    entries: Seq<(Seq<char>, IndexEntryMetaV)>,
    sid: Seq<char>,
) -> Option<IndexEntryMetaV>
    decreases entries.len(),
{
    if entries.len() == 0 {
        None
    } else if entries.last().0 == sid {
        Some(entries.last().1)
    } else {
        spec_meta_lookup(entries.drop_last(), sid)
    }
}

fn meta_of_entry(e: &JsonValue) -> (r: Option<(String, IndexEntryMeta)>)
    ensures
        match r {
            Some(kv) => spec_meta_of_entry(e@) == Some((kv.0@, kv.1@)),
            None => spec_meta_of_entry(e@) is None,
        },
{
    let sid = match e.get_str("sessionId") {
        Some(s) => s.clone(),
        None => String::new(),
    };
    if sid.as_str().is_empty() {
        return None;
    }
    let meta = IndexEntryMeta {
        project_path: match e.get_str("projectPath") {
            Some(p) => Some(p.clone()),
            None => None,
        },
        git_branch: match e.get_str("gitBranch") {
            Some(s) => s.clone(),
            None => String::new(),
        },
        summary: match e.get_str("summary") {
            Some(s) => s.clone(),
            None => String::new(),
        },
        first_prompt: match e.get_str("firstPrompt") {
            Some(s) => s.clone(),
            None => String::new(),
        },
        message_count: match e.get("messageCount") {
            Some(c) => match c.as_i64() {
                Some(m) => m,
                None => 0,
            },
            None => 0,
        },
        created_at: match e.get_str("created") {
            Some(s) => s.clone(),
            None => String::new(),
        },
        modified_at: match e.get_str("modified") {
            Some(s) => s.clone(),
            None => String::new(),
        },
    };
    let r = Some((sid, meta));
    proof {
        assert(spec_meta_of_entry(e@) =~= Some((sid@, meta@)));
    }
    r
}

/// Read a sidecar metadata file into the per-session lookup list.
pub fn read_index_metadata(sidecar: &Option<String>) -> (r: Vec<(String, IndexEntryMeta)>)
    ensures
        r@.map_values(|kv: (String, IndexEntryMeta)| (kv.0@, kv.1@)) == spec_sidecar_meta(
            match sidecar {
                Some(s) => Some(s@),
                None => None,
            },
        ),
{
    let mut out: Vec<(String, IndexEntryMeta)> = Vec::new();
    let content = match sidecar {
        Some(c) => c,
        None => {
            assert(out@.map_values(|kv: (String, IndexEntryMeta)| (kv.0@, kv.1@)) =~= Seq::<
                (Seq<char>, IndexEntryMetaV),
            >::empty());
            return out;
        },
    };
    match parse_json(content.as_str()) {
        None => {
            assert(out@.map_values(|kv: (String, IndexEntryMeta)| (kv.0@, kv.1@)) =~= Seq::<
                (Seq<char>, IndexEntryMetaV),
            >::empty());
            out
        },
        Some(v) => {
            match v.get("entries") {
                Some(JsonValue::Arr(items)) => {
                    let ghost ivs = json_view_seq(items@);
                    let n = items.len();
                    proof {
                        lemma_json_view_seq(items@);
                        assert(ivs.skip(0) =~= ivs);
                        assert(out@.map_values(|kv: (String, IndexEntryMeta)| (kv.0@, kv.1@))
                            =~= Seq::<(Seq<char>, IndexEntryMetaV)>::empty());
                    }
                    for i in 0..n
                        invariant
                            n == items@.len(),
                            ivs == json_view_seq(items@),
                            ivs.len() == n,
                            spec_meta_entries(ivs) == out@.map_values(
                                |kv: (String, IndexEntryMeta)| (kv.0@, kv.1@),
                            ) + spec_meta_entries(ivs.skip(i as int)),
                    {
                        proof {
                            lemma_json_view_seq(items@);
                            assert(ivs.skip(i as int)[0] == ivs[i as int]);
                            assert(ivs.skip(i as int).drop_first() =~= ivs.skip(i + 1 as int));
                        }
                        let ghost old_out = out@;
                        match meta_of_entry(&items[i]) {
                            Some(kv) => {
                                out.push(kv);
                                proof {
                                    let f = |kv: (String, IndexEntryMeta)| (kv.0@, kv.1@);
                                    assert(out@.map_values(f) =~= old_out.map_values(f).push(
                                        (out@.last().0@, out@.last().1@),
                                    ));
                                    assert(old_out.map_values(f) + (seq![
                                        (out@.last().0@, out@.last().1@),
                                    ] + spec_meta_entries(ivs.skip(i + 1 as int))) =~= (
                                    old_out.map_values(f).push((out@.last().0@, out@.last().1@)))
                                        + spec_meta_entries(ivs.skip(i + 1 as int)));
                                }
                            },
                            None => {},
                        }
                    }
                    proof {
                        assert(ivs.skip(n as int).len() == 0);
                        assert(out@.map_values(|kv: (String, IndexEntryMeta)| (kv.0@, kv.1@))
                            + spec_meta_entries(ivs.skip(n as int)) =~= out@.map_values(
                            |kv: (String, IndexEntryMeta)| (kv.0@, kv.1@),
                        ));
                    }
                    out
                },
                _ => {
                    assert(out@.map_values(|kv: (String, IndexEntryMeta)| (kv.0@, kv.1@)) =~= Seq::<
                        (Seq<char>, IndexEntryMetaV),
                    >::empty());
                    out
                },
            }
        },
    }
}

/// Look a session id up in the metadata list; the last entry wins, as it does
/// when the entries fill a keyed table in order.
pub fn meta_lookup<'a>(entries: &'a Vec<(String, IndexEntryMeta)>, sid: &str) -> (r: Option<
    &'a IndexEntryMeta,
>)
    ensures
        match r {
            Some(m) => spec_meta_lookup(
                entries@.map_values(|kv: (String, IndexEntryMeta)| (kv.0@, kv.1@)),
                sid@,
            ) == Some(m@),
            None => spec_meta_lookup(
                entries@.map_values(|kv: (String, IndexEntryMeta)| (kv.0@, kv.1@)),
                sid@,
            ) is None,
        },
{
    let ghost evs = entries@.map_values(|kv: (String, IndexEntryMeta)| (kv.0@, kv.1@));
    let n = entries.len();
    let mut i: usize = n;
    assert(evs.subrange(0, n as int) =~= evs);
    while i > 0
        invariant
            n == entries@.len(),
            evs == entries@.map_values(|kv: (String, IndexEntryMeta)| (kv.0@, kv.1@)),
            0 <= i <= n,
            spec_meta_lookup(evs, sid@) == spec_meta_lookup(evs.subrange(0, i as int), sid@),
        decreases i,
    {
        proof {
            assert(evs.subrange(0, i as int).last() == evs[i - 1]);
            assert(evs.subrange(0, i as int).drop_last() =~= evs.subrange(0, i - 1 as int));
        }
        if str_eq(entries[i - 1].0.as_str(), sid) {
            return Some(&entries[i - 1].1);
        }
        i = i - 1;
    }
    assert(evs.subrange(0, 0).len() == 0);
    None
}

/// How one session file moves the store: untouched when the stored
/// modification time equals the file's, else its row is rewritten from the
/// sidecar metadata and the decoded directory name, and its prompt rows are
/// replaced by the file's extracted prompts.
pub open spec fn spec_record_for(
    dir_name: Seq<char>,
    meta: Option<IndexEntryMetaV>,
    sid: Seq<char>,
    mtime: i64,
    prompts: Seq<PromptRecordV>,
) -> SessionRecordV {
    let project_path = match meta {
        Some(m) => match m.project_path {
            Some(p) => p,
            None => spec_decode_project_path(dir_name),
        },
        None => spec_decode_project_path(dir_name),
    };
    let first_meta = match meta {
        Some(m) => m.first_prompt,
        None => Seq::empty(),
    };
    let first = if first_meta.len() == 0 {
        if prompts.len() > 0 {
            prompts[0].prompt
        } else {
            Seq::empty()
        }
    } else {
        first_meta
    };
    SessionRecordV {
        session_id: sid,
        project_path: project_path,
        dir_name: dir_name,
        git_branch: match meta {
            Some(m) => m.git_branch,
            None => Seq::empty(),
        },
        summary: match meta {
            Some(m) => m.summary,
            None => Seq::empty(),
        },
        first_prompt: first,
        message_count: match meta {
            Some(m) => m.message_count,
            None => 0,
        },
        created_at: match meta {
            Some(m) => m.created_at,
            None => Seq::empty(),
        },
        modified_at: match meta {
            Some(m) => m.modified_at,
            None => Seq::empty(),
        },
        file_mtime: mtime,
    }
}

/// The store state, as the pair of its two maps.
pub open spec fn spec_apply_file(
    st: (Map<Seq<char>, SessionRecordV>, Map<Seq<char>, Seq<PromptRecordV>>),
    dir_name: Seq<char>,
    meta: Seq<(Seq<char>, IndexEntryMetaV)>,
    f: SessionFileV,
) -> (Map<Seq<char>, SessionRecordV>, Map<Seq<char>, Seq<PromptRecordV>>) {
    if st.0.contains_key(f.session_id) && st.0[f.session_id].file_mtime == f.mtime_millis {
        st
    } else {
        let prompts = spec_extract_prompts(f.content);
        let rec = spec_record_for(
            dir_name,
            spec_meta_lookup(meta, f.session_id),
            f.session_id,
            f.mtime_millis,
            prompts,
        );
        (
            st.0.insert(f.session_id, rec),
            st.1.insert(f.session_id, spec_dedup_prompts(prompts)),
        )
    }
}

pub open spec fn spec_apply_files(
    st: (Map<Seq<char>, SessionRecordV>, Map<Seq<char>, Seq<PromptRecordV>>),
    dir_name: Seq<char>,
    meta: Seq<(Seq<char>, IndexEntryMetaV)>,
    files: Seq<SessionFileV>,
) -> (Map<Seq<char>, SessionRecordV>, Map<Seq<char>, Seq<PromptRecordV>>)
    decreases files.len(),
{
    if files.len() == 0 {
        st
    } else {
        spec_apply_files(spec_apply_file(st, dir_name, meta, files[0]), dir_name, meta, files.drop_first())
    }
}

pub open spec fn spec_apply_project(
    st: (Map<Seq<char>, SessionRecordV>, Map<Seq<char>, Seq<PromptRecordV>>),
    p: ProjectV,
) -> (Map<Seq<char>, SessionRecordV>, Map<Seq<char>, Seq<PromptRecordV>>) {
    spec_apply_files(st, p.dir_name, spec_sidecar_meta(p.sidecar), p.files)
}

/// How one indexing pass moves the store, project by project, file by file.
pub open spec fn spec_apply_projects(
    st: (Map<Seq<char>, SessionRecordV>, Map<Seq<char>, Seq<PromptRecordV>>),
    ps: Seq<ProjectV>,
) -> (Map<Seq<char>, SessionRecordV>, Map<Seq<char>, Seq<PromptRecordV>>)
    decreases ps.len(),
{
    if ps.len() == 0 {
        st
    } else {
        spec_apply_projects(spec_apply_project(st, ps[0]), ps.drop_first())
    }
}

/// Index one session file against the store.
fn index_one_file(
    ix: &mut SessionIndex,
    dir_name: &str,
    meta_entries: &Vec<(String, IndexEntryMeta)>,
    file: &SessionFileInput,
) -> (r: Result<(), IndexError>)
    ensures
        r is Ok ==> (final(ix).sessions(), final(ix).prompts()) == spec_apply_file(
            (old(ix).sessions(), old(ix).prompts()),
            dir_name@,
            meta_entries@.map_values(|kv: (String, IndexEntryMeta)| (kv.0@, kv.1@)),
            file@,
        ),
{
    let ghost st0 = (ix.sessions(), ix.prompts());
    let ghost mvs = meta_entries@.map_values(|kv: (String, IndexEntryMeta)| (kv.0@, kv.1@));
    let stored = match ix.get_file_mtime(file.session_id.as_str()) {
        Ok(m) => m,
        Err(e) => {
            return Err(e);
        },
    };
    match stored {
        Some(m) => {
            if m == file.mtime_millis {
                proof {
                    assert(spec_apply_file(st0, dir_name@, mvs, file@) == st0);
                }
                return Ok(());
            }
        },
        None => {},
    }
    let meta = meta_lookup(meta_entries, file.session_id.as_str());
    let project_path = match meta {
        Some(m) => match &m.project_path {
            Some(p) => p.clone(),
            None => decode_project_path(dir_name),
        },
        None => decode_project_path(dir_name),
    };
    let git_branch = match meta {
        Some(m) => m.git_branch.clone(),
        None => String::new(),
    };
    let summary = match meta {
        Some(m) => m.summary.clone(),
        None => String::new(),
    };
    let first_prompt_meta = match meta {
        Some(m) => m.first_prompt.clone(),
        None => String::new(),
    };
    let message_count = match meta {
        Some(m) => m.message_count,
        None => 0,
    };
    let created_at = match meta {
        Some(m) => m.created_at.clone(),
        None => String::new(),
    };
    let modified_at = match meta {
        Some(m) => m.modified_at.clone(),
        None => String::new(),
    };
    let prompts = extract_user_prompts(file.content.as_str());
    let first_prompt = if first_prompt_meta.as_str().is_empty() {
        if prompts.len() > 0 {
            prompts[0].prompt.clone()
        } else {
            String::new()
        }
    } else {
        first_prompt_meta
    };
    let rec = SessionRecord {
        session_id: file.session_id.clone(),
        project_path,
        dir_name: dir_name.to_owned(),
        git_branch,
        summary,
        first_prompt,
        message_count,
        created_at,
        modified_at,
        file_mtime: file.mtime_millis,
    };
    proof {
        assert(rec@ =~= spec_record_for(
            dir_name@,
            spec_meta_lookup(mvs, file.session_id@),
            file.session_id@,
            file.mtime_millis,
            spec_extract_prompts(file.content@),
        ));
    }
    match ix.upsert_session(&rec) {
        Ok(()) => {},
        Err(e) => {
            return Err(e);
        },
    }
    match ix.insert_prompts(file.session_id.as_str(), &prompts) {
        Ok(()) => {},
        Err(e) => {
            return Err(e);
        },
    }
    proof {
        assert((ix.sessions(), ix.prompts()) =~= spec_apply_file(st0, dir_name@, mvs, file@));
    }
    Ok(())
}

/// Whether the scanned tree holds any session file at all.
pub open spec fn tree_has_files(ps: Seq<ProjectV>) -> bool {
    exists|pi: int| 0 <= pi < ps.len() && (#[trigger] ps[pi]).files.len() > 0
}

/// Bring the store up to date with the scanned tree. Only files whose
/// modification time differs from the stored one are re-parsed; a store
/// failure aborts the build and is returned. A tree without session files —
/// in particular a missing or empty root, scanned as no projects — asks for
/// no store work and never fails.
pub fn build_index_core(ix: &mut SessionIndex, projects: &Vec<ProjectInput>) -> (r: Result<
    (),
    IndexError,
>)
    ensures
        r is Ok ==> final(ix).sessions() == spec_apply_projects(
            (old(ix).sessions(), old(ix).prompts()),
            projects@.map_values(|p: ProjectInput| p@),
        ).0,
        r is Ok ==> final(ix).prompts() == spec_apply_projects(
            (old(ix).sessions(), old(ix).prompts()),
            projects@.map_values(|p: ProjectInput| p@),
        ).1,
        projects@.len() == 0 ==> r is Ok,
        !tree_has_files(projects@.map_values(|p: ProjectInput| p@)) ==> r is Ok,
{
    let ghost st0 = (ix.sessions(), ix.prompts());
    let ghost pvs = projects@.map_values(|p: ProjectInput| p@);
    let n = projects.len();
    proof {
        assert(pvs.skip(0) =~= pvs);
    }
    for i in 0..n
        invariant
            n == projects@.len(),
            pvs == projects@.map_values(|p: ProjectInput| p@),
            pvs.len() == n,
            spec_apply_projects(st0, pvs) == spec_apply_projects(
                (ix.sessions(), ix.prompts()),
                pvs.skip(i as int),
            ),
    {
        proof {
            assert(pvs.skip(i as int)[0] == pvs[i as int]);
            assert(pvs.skip(i as int).drop_first() =~= pvs.skip(i + 1 as int));
        }
        let project = &projects[i];
        let meta_entries = read_index_metadata(&project.sidecar);
        let ghost mvs = meta_entries@.map_values(|kv: (String, IndexEntryMeta)| (kv.0@, kv.1@));
        proof {
            assert(mvs == spec_sidecar_meta(pvs[i as int].sidecar));
        }
        let ghost proj_st = (ix.sessions(), ix.prompts());
        let ghost fvs = pvs[i as int].files;
        let m = project.files.len();
        proof {
            assert(fvs == project.files@.map_values(|f: SessionFileInput| f@));
            assert(fvs.skip(0) =~= fvs);
        }
        for j in 0..m
            invariant
                m == project.files@.len(),
                fvs == project.files@.map_values(|f: SessionFileInput| f@),
                fvs.len() == m,
                pvs == projects@.map_values(|p: ProjectInput| p@),
                0 <= i < pvs.len(),
                fvs == pvs[i as int].files,
                mvs == meta_entries@.map_values(|kv: (String, IndexEntryMeta)| (kv.0@, kv.1@)),
                spec_apply_files(proj_st, project.dir_name@, mvs, fvs) == spec_apply_files(
                    (ix.sessions(), ix.prompts()),
                    project.dir_name@,
                    mvs,
                    fvs.skip(j as int),
                ),
        {
            proof {
                assert(fvs.skip(j as int)[0] == fvs[j as int]);
                assert(fvs.skip(j as int).drop_first() =~= fvs.skip(j + 1 as int));
            }
            match index_one_file(ix, project.dir_name.as_str(), &meta_entries, &project.files[j]) {
                Ok(()) => {},
                Err(e) => {
                    proof {
                        assert(pvs[i as int].files.len() > 0);
                        assert(tree_has_files(pvs));
                    }
                    return Err(e);
                },
            }
        }
        proof {
            assert(fvs.skip(m as int).len() == 0);
            assert(spec_apply_files(proj_st, project.dir_name@, mvs, fvs) == (
            ix.sessions(),
            ix.prompts(),
            ));
            assert(spec_apply_project(proj_st, pvs[i as int]) == (ix.sessions(), ix.prompts()));
        }
    }
    proof {
        assert(pvs.skip(n as int).len() == 0);
    }
    Ok(())
}

/// Whether both maps of two store states agree on one session id.
pub open spec fn maps_agree_at(
    a: (Map<Seq<char>, SessionRecordV>, Map<Seq<char>, Seq<PromptRecordV>>),
    b: (Map<Seq<char>, SessionRecordV>, Map<Seq<char>, Seq<PromptRecordV>>),
    id: Seq<char>,
) -> bool {
    &&& a.0.contains_key(id) == b.0.contains_key(id)
    &&& (a.0.contains_key(id) ==> a.0[id] == b.0[id])
    &&& a.1.contains_key(id) == b.1.contains_key(id)
    &&& (a.1.contains_key(id) ==> a.1[id] == b.1[id])
}

/// Whether any session file of the tree names this id.
pub open spec fn tree_has_id(ps: Seq<ProjectV>, id: Seq<char>) -> bool {
    exists|pi: int, fi: int|
        0 <= pi < ps.len() && 0 <= fi < ps[pi].files.len() && (#[trigger] ps[pi].files[fi]).session_id
            == id
}

/// Whether every session file of the tree carries its own session id.
pub open spec fn tree_ids_distinct(ps: Seq<ProjectV>) -> bool {
    forall|pi1: int, fi1: int, pi2: int, fi2: int|
        0 <= pi1 < ps.len() && 0 <= fi1 < ps[pi1].files.len() && 0 <= pi2 < ps.len() && 0 <= fi2
            < ps[pi2].files.len() && (pi1 != pi2 || fi1 != fi2) ==> (
        #[trigger] ps[pi1].files[fi1]).session_id != (#[trigger] ps[pi2].files[fi2]).session_id
}

/// What the pass leaves for the session of one file: untouched when the
/// stored modification time already matched, else rewritten from the file.
pub open spec fn file_outcome(
    st: (Map<Seq<char>, SessionRecordV>, Map<Seq<char>, Seq<PromptRecordV>>),
    st1: (Map<Seq<char>, SessionRecordV>, Map<Seq<char>, Seq<PromptRecordV>>),
    dir: Seq<char>,
    meta: Seq<(Seq<char>, IndexEntryMetaV)>,
    f: SessionFileV,
) -> bool {
    if st.0.contains_key(f.session_id) && st.0[f.session_id].file_mtime == f.mtime_millis {
        maps_agree_at(st1, st, f.session_id)
    } else {
        &&& st1.0.contains_key(f.session_id)
        &&& st1.0[f.session_id] == spec_record_for(
            dir,
            spec_meta_lookup(meta, f.session_id),
            f.session_id,
            f.mtime_millis,
            spec_extract_prompts(f.content),
        )
        &&& st1.1.contains_key(f.session_id)
        &&& st1.1[f.session_id] == spec_dedup_prompts(spec_extract_prompts(f.content))
    }
}

/// A pass over files never touches a session id that none of them carries.
proof fn lemma_files_frame(
    st: (Map<Seq<char>, SessionRecordV>, Map<Seq<char>, Seq<PromptRecordV>>),
    dir: Seq<char>,
    meta: Seq<(Seq<char>, IndexEntryMetaV)>,
    files: Seq<SessionFileV>,
    id: Seq<char>,
)
    requires
        forall|fi: int| 0 <= fi < files.len() ==> (#[trigger] files[fi]).session_id != id,
    ensures
        maps_agree_at(spec_apply_files(st, dir, meta, files), st, id),
    decreases files.len(),
{
    if files.len() > 0 {
        let st1 = spec_apply_file(st, dir, meta, files[0]);
        assert(files[0].session_id != id);
        assert(maps_agree_at(st1, st, id));
        assert forall|fi: int| 0 <= fi < files.drop_first().len() implies (
        #[trigger] files.drop_first()[fi]).session_id != id by {
            assert(files.drop_first()[fi] == files[fi + 1]);
        }
        lemma_files_frame(st1, dir, meta, files.drop_first(), id);
    }
}

/// A pass over projects never touches a session id that no file carries.
proof fn lemma_projects_frame(
    st: (Map<Seq<char>, SessionRecordV>, Map<Seq<char>, Seq<PromptRecordV>>),
    ps: Seq<ProjectV>,
    id: Seq<char>,
)
    requires
        !tree_has_id(ps, id),
    ensures
        maps_agree_at(spec_apply_projects(st, ps), st, id),
    decreases ps.len(),
{
    if ps.len() > 0 {
        assert forall|fi: int| 0 <= fi < ps[0].files.len() implies (
        #[trigger] ps[0].files[fi]).session_id != id by {
            if ps[0].files[fi].session_id == id {
                assert(tree_has_id(ps, id));
            }
        }
        lemma_files_frame(st, ps[0].dir_name, spec_sidecar_meta(ps[0].sidecar), ps[0].files, id);
        let st1 = spec_apply_project(st, ps[0]);
        assert forall|pi: int, fi: int|
            0 <= pi < ps.drop_first().len() && 0 <= fi < ps.drop_first()[pi].files.len() implies (
        #[trigger] ps.drop_first()[pi].files[fi]).session_id != id by {
            assert(ps.drop_first()[pi] == ps[pi + 1]);
            if ps[pi + 1].files[fi].session_id == id {
                assert(tree_has_id(ps, id));
            }
        }
        assert(!tree_has_id(ps.drop_first(), id));
        lemma_projects_frame(st1, ps.drop_first(), id);
    }
}

/// Within one file list with distinct ids, the pass leaves for each file
/// exactly its own outcome.
proof fn lemma_pointwise_files(
    st: (Map<Seq<char>, SessionRecordV>, Map<Seq<char>, Seq<PromptRecordV>>),
    dir: Seq<char>,
    meta: Seq<(Seq<char>, IndexEntryMetaV)>,
    files: Seq<SessionFileV>,
    fi: int,
)
    requires
        0 <= fi < files.len(),
        forall|i: int, j: int|
            0 <= i < j < files.len() ==> (#[trigger] files[i]).session_id != (
            #[trigger] files[j]).session_id,
    ensures
        file_outcome(st, spec_apply_files(st, dir, meta, files), dir, meta, files[fi]),
    decreases files.len(),
{
    let f0 = files[0];
    let st1 = spec_apply_file(st, dir, meta, f0);
    if fi == 0 {
        assert(file_outcome(st, st1, dir, meta, f0));
        assert forall|i: int| 0 <= i < files.drop_first().len() implies (
        #[trigger] files.drop_first()[i]).session_id != f0.session_id by {
            assert(files.drop_first()[i] == files[i + 1]);
        }
        lemma_files_frame(st1, dir, meta, files.drop_first(), f0.session_id);
    } else {
        let f = files[fi];
        assert(f == files.drop_first()[fi - 1]);
        assert(f0.session_id != f.session_id);
        assert(maps_agree_at(st1, st, f.session_id));
        assert forall|i: int, j: int|
            0 <= i < j < files.drop_first().len() implies (
        #[trigger] files.drop_first()[i]).session_id != (
        #[trigger] files.drop_first()[j]).session_id by {
            assert(files.drop_first()[i] == files[i + 1]);
            assert(files.drop_first()[j] == files[j + 1]);
        }
        lemma_pointwise_files(st1, dir, meta, files.drop_first(), fi - 1);
    }
}

/// The store is consistent with the tree after one pass: for every session
/// file (under distinct session ids), either its stored modification time
/// already matched and its rows are untouched, or its session row and prompt
/// rows now come exactly from the file's current content.
pub proof fn lemma_pointwise_projects(
    st: (Map<Seq<char>, SessionRecordV>, Map<Seq<char>, Seq<PromptRecordV>>),
    ps: Seq<ProjectV>,
    pi: int,
    fi: int,
)
    requires
        tree_ids_distinct(ps),
        0 <= pi < ps.len(),
        0 <= fi < ps[pi].files.len(),
    ensures
        file_outcome(
            st,
            spec_apply_projects(st, ps),
            ps[pi].dir_name,
            spec_sidecar_meta(ps[pi].sidecar),
            ps[pi].files[fi],
        ),
    decreases ps.len(),
{
    let f = ps[pi].files[fi];
    let rest = ps.drop_first();
    assert forall|pi1: int, fi1: int, pi2: int, fi2: int|
        0 <= pi1 < rest.len() && 0 <= fi1 < rest[pi1].files.len() && 0 <= pi2 < rest.len() && 0
            <= fi2 < rest[pi2].files.len() && (pi1 != pi2 || fi1 != fi2) implies (
    #[trigger] rest[pi1].files[fi1]).session_id != (#[trigger] rest[pi2].files[fi2]).session_id by {
        assert(rest[pi1] == ps[pi1 + 1]);
        assert(rest[pi2] == ps[pi2 + 1]);
    }
    assert(tree_ids_distinct(rest));
    if pi == 0 {
        assert forall|i: int, j: int|
            0 <= i < j < ps[0].files.len() implies (#[trigger] ps[0].files[i]).session_id != (
        #[trigger] ps[0].files[j]).session_id by {}
        lemma_pointwise_files(st, ps[0].dir_name, spec_sidecar_meta(ps[0].sidecar), ps[0].files, fi);
        let st1 = spec_apply_project(st, ps[0]);
        assert forall|pj: int, fj: int|
            0 <= pj < rest.len() && 0 <= fj < rest[pj].files.len() implies (
        #[trigger] rest[pj].files[fj]).session_id != f.session_id by {
            assert(rest[pj] == ps[pj + 1]);
        }
        assert(!tree_has_id(rest, f.session_id));
        lemma_projects_frame(st1, rest, f.session_id);
    } else {
        assert forall|i: int| 0 <= i < ps[0].files.len() implies (
        #[trigger] ps[0].files[i]).session_id != f.session_id by {}
        lemma_files_frame(st, ps[0].dir_name, spec_sidecar_meta(ps[0].sidecar), ps[0].files, f.session_id);
        let st1 = spec_apply_project(st, ps[0]);
        assert(maps_agree_at(st1, st, f.session_id));
        assert(rest[pi - 1] == ps[pi]);
        lemma_pointwise_projects(st1, rest, pi - 1, fi);
    }
}

/// After one pass, the stored modification time of each file's session equals
/// the file's, whether the file was skipped or re-indexed.
proof fn lemma_after_pass_mtime(
    st: (Map<Seq<char>, SessionRecordV>, Map<Seq<char>, Seq<PromptRecordV>>),
    ps: Seq<ProjectV>,
    pi: int,
    fi: int,
)
    requires
        tree_ids_distinct(ps),
        0 <= pi < ps.len(),
        0 <= fi < ps[pi].files.len(),
    ensures
        spec_apply_projects(st, ps).0.contains_key(ps[pi].files[fi].session_id),
        spec_apply_projects(st, ps).0[ps[pi].files[fi].session_id].file_mtime
            == ps[pi].files[fi].mtime_millis,
{
    lemma_pointwise_projects(st, ps, pi, fi);
}

/// A pass in which every file's stored modification time already matches
/// leaves the store untouched.
proof fn lemma_all_skip_files(
    st: (Map<Seq<char>, SessionRecordV>, Map<Seq<char>, Seq<PromptRecordV>>),
    dir: Seq<char>,
    meta: Seq<(Seq<char>, IndexEntryMetaV)>,
    files: Seq<SessionFileV>,
)
    requires
        forall|fi: int|
            0 <= fi < files.len() ==> st.0.contains_key((#[trigger] files[fi]).session_id)
                && st.0[files[fi].session_id].file_mtime == files[fi].mtime_millis,
    ensures
        spec_apply_files(st, dir, meta, files) == st,
    decreases files.len(),
{
    if files.len() > 0 {
        assert(spec_apply_file(st, dir, meta, files[0]) == st);
        assert forall|fi: int|
            0 <= fi < files.drop_first().len() implies st.0.contains_key(
            (#[trigger] files.drop_first()[fi]).session_id,
        ) && st.0[files.drop_first()[fi].session_id].file_mtime
            == files.drop_first()[fi].mtime_millis by {
            assert(files.drop_first()[fi] == files[fi + 1]);
        }
        lemma_all_skip_files(st, dir, meta, files.drop_first());
    }
}

proof fn lemma_all_skip_projects(
    st: (Map<Seq<char>, SessionRecordV>, Map<Seq<char>, Seq<PromptRecordV>>),
    ps: Seq<ProjectV>,
)
    requires
        forall|pi: int, fi: int|
            0 <= pi < ps.len() && 0 <= fi < ps[pi].files.len() ==> st.0.contains_key(
                (#[trigger] ps[pi].files[fi]).session_id,
            ) && st.0[ps[pi].files[fi].session_id].file_mtime == ps[pi].files[fi].mtime_millis,
    ensures
        spec_apply_projects(st, ps) == st,
    decreases ps.len(),
{
    if ps.len() > 0 {
        assert forall|fi: int|
            0 <= fi < ps[0].files.len() implies st.0.contains_key(
            (#[trigger] ps[0].files[fi]).session_id,
        ) && st.0[ps[0].files[fi].session_id].file_mtime == ps[0].files[fi].mtime_millis by {}
        lemma_all_skip_files(st, ps[0].dir_name, spec_sidecar_meta(ps[0].sidecar), ps[0].files);
        let rest = ps.drop_first();
        assert forall|pi: int, fi: int|
            0 <= pi < rest.len() && 0 <= fi < rest[pi].files.len() implies st.0.contains_key(
            (#[trigger] rest[pi].files[fi]).session_id,
        ) && st.0[rest[pi].files[fi].session_id].file_mtime
            == rest[pi].files[fi].mtime_millis by {
            assert(rest[pi] == ps[pi + 1]);
        }
        lemma_all_skip_projects(st, rest);
    }
}

/// Indexing an unchanged tree twice gives the same store as indexing it once:
/// the second pass skips every file, duplicating and losing nothing. Holds for
/// any tree in which no two session files share a session id — the log
/// layout's invariant, since a session is stored as the one file named after
/// its id.
pub proof fn lemma_build_index_idempotent(
    st: (Map<Seq<char>, SessionRecordV>, Map<Seq<char>, Seq<PromptRecordV>>),
    ps: Seq<ProjectV>,
)
    requires
        tree_ids_distinct(ps),
    ensures
        spec_apply_projects(spec_apply_projects(st, ps), ps) == spec_apply_projects(st, ps),
{
    let st1 = spec_apply_projects(st, ps);
    assert forall|pi: int, fi: int|
        0 <= pi < ps.len() && 0 <= fi < ps[pi].files.len() implies st1.0.contains_key(
        (#[trigger] ps[pi].files[fi]).session_id,
    ) && st1.0[ps[pi].files[fi].session_id].file_mtime == ps[pi].files[fi].mtime_millis by {
        lemma_after_pass_mtime(st, ps, pi, fi);
    }
    lemma_all_skip_projects(st1, ps);
}

/// After indexing a tree, changing exactly one session file (same session id,
/// new modification time) and re-indexing rewrites only that session's row and
/// prompt rows from the new content; every other id's rows are unchanged.
/// Holds for any tree in which no two session files share a session id — the
/// log layout's invariant, since a session is stored as the one file named
/// after its id.
pub proof fn lemma_build_index_incremental(
    st: (Map<Seq<char>, SessionRecordV>, Map<Seq<char>, Seq<PromptRecordV>>),
    ps: Seq<ProjectV>,
    pi: int,
    fi: int,
    f2: SessionFileV,
)
    requires
        tree_ids_distinct(ps),
        0 <= pi < ps.len(),
        0 <= fi < ps[pi].files.len(),
        f2.session_id == ps[pi].files[fi].session_id,
        f2.mtime_millis != ps[pi].files[fi].mtime_millis,
    ensures
        ({
            let st1 = spec_apply_projects(st, ps);
            let ps2 = ps.update(
                pi,
                ProjectV { files: ps[pi].files.update(fi, f2), ..ps[pi] },
            );
            let st2 = spec_apply_projects(st1, ps2);
            let sid = f2.session_id;
            &&& forall|id: Seq<char>| id != sid ==> #[trigger] maps_agree_at(st2, st1, id)
            &&& st2.0.contains_key(sid)
            &&& st2.0[sid] == spec_record_for(
                ps[pi].dir_name,
                spec_meta_lookup(spec_sidecar_meta(ps[pi].sidecar), sid),
                sid,
                f2.mtime_millis,
                spec_extract_prompts(f2.content),
            )
            &&& st2.1.contains_key(sid)
            &&& st2.1[sid] == spec_dedup_prompts(spec_extract_prompts(f2.content))
        }),
{
    let st1 = spec_apply_projects(st, ps);
    let ps2 = ps.update(pi, ProjectV { files: ps[pi].files.update(fi, f2), ..ps[pi] });
    let st2 = spec_apply_projects(st1, ps2);
    let sid = f2.session_id;
    // the changed tree carries the same ids at the same places
    assert(ps2.len() == ps.len());
    assert forall|pj: int, fj: int|
        0 <= pj < ps2.len() && 0 <= fj < ps2[pj].files.len() implies (
    #[trigger] ps2[pj].files[fj]).session_id == ps[pj].files[fj].session_id && ps[pj].files.len()
        == ps2[pj].files.len() by {
        if pj == pi {
            assert(ps2[pj].files == ps[pi].files.update(fi, f2));
            if fj == fi {
                assert(ps2[pj].files[fj] == f2);
            } else {
                assert(ps2[pj].files[fj] == ps[pj].files[fj]);
            }
        } else {
            assert(ps2[pj] == ps[pj]);
        }
    }
    assert(tree_ids_distinct(ps2));
    // every other id is untouched by the second pass
    assert forall|id: Seq<char>| id != sid implies #[trigger] maps_agree_at(st2, st1, id) by {
        if tree_has_id(ps2, id) {
            let (pj, fj) = choose|pj: int, fj: int|
                0 <= pj < ps2.len() && 0 <= fj < ps2[pj].files.len() && (
                #[trigger] ps2[pj].files[fj]).session_id == id;
            lemma_after_pass_mtime(st, ps, pj, fj);
            assert(ps2[pj].files[fj] == ps[pj].files[fj]);
            lemma_pointwise_projects(st1, ps2, pj, fj);
            assert(st1.0.contains_key(id) && st1.0[id].file_mtime
                == ps2[pj].files[fj].mtime_millis);
            assert(maps_agree_at(st2, st1, id));
        } else {
            lemma_projects_frame(st1, ps2, id);
        }
    }
    // the touched session is rewritten from the new file
    lemma_after_pass_mtime(st, ps, pi, fi);
    assert(st1.0[sid].file_mtime == ps[pi].files[fi].mtime_millis);
    lemma_pointwise_projects(st1, ps2, pi, fi);
    assert(ps2[pi].files[fi] == f2);
    assert(ps2[pi].dir_name == ps[pi].dir_name);
    assert(ps2[pi].sidecar == ps[pi].sidecar);
    assert(!(st1.0.contains_key(sid) && st1.0[sid].file_mtime == f2.mtime_millis));
}

/// After indexing a tree and then re-indexing it with exactly one session
/// file changed (same session id, new modification time), any two
/// global-search views of the two stores hold the same session ids; the
/// changed session's element now carries exactly the prompt texts of the new
/// content, and every other session's element is unchanged in every field.
/// Holds under the same distinct-ids hypothesis as the incremental lemma.
pub proof fn lemma_incremental_search_view(
    st: (Map<Seq<char>, SessionRecordV>, Map<Seq<char>, Seq<PromptRecordV>>),
    ps: Seq<ProjectV>,
    pi: int,
    fi: int,
    f2: SessionFileV,
    v1: Seq<SearchableSession>,
    v2: Seq<SearchableSession>,
)
    requires
        tree_ids_distinct(ps),
        0 <= pi < ps.len(),
        0 <= fi < ps[pi].files.len(),
        f2.session_id == ps[pi].files[fi].session_id,
        f2.mtime_millis != ps[pi].files[fi].mtime_millis,
        search_view_ok(spec_apply_projects(st, ps).0, spec_apply_projects(st, ps).1, v1),
        search_view_ok(
            spec_apply_projects(
                spec_apply_projects(st, ps),
                ps.update(pi, ProjectV { files: ps[pi].files.update(fi, f2), ..ps[pi] }),
            ).0,
            spec_apply_projects(
                spec_apply_projects(st, ps),
                ps.update(pi, ProjectV { files: ps[pi].files.update(fi, f2), ..ps[pi] }),
            ).1,
            v2,
        ),
    ensures
        v2.map_values(|s: SearchableSession| s.session_id@).to_set() == v1.map_values(
            |s: SearchableSession| s.session_id@,
        ).to_set(),
        forall|k: int|
            0 <= k < v2.len() && (#[trigger] v2[k]).session_id@ == f2.session_id
                ==> v2[k].prompts@.map_values(|s: String| s@) == spec_dedup_prompts(
                spec_extract_prompts(f2.content),
            ).map_values(|p: PromptRecordV| p.prompt),
        forall|k: int, k1: int|
            0 <= k < v2.len() && 0 <= k1 < v1.len() && (#[trigger] v2[k]).session_id@ == (
            #[trigger] v1[k1]).session_id@ && v2[k].session_id@ != f2.session_id ==> {
                &&& v2[k].project_path@ == v1[k1].project_path@
                &&& v2[k].dir_name@ == v1[k1].dir_name@
                &&& v2[k].git_branch@ == v1[k1].git_branch@
                &&& v2[k].summary@ == v1[k1].summary@
                &&& v2[k].created_at@ == v1[k1].created_at@
                &&& v2[k].prompts@.map_values(|s: String| s@) == v1[k1].prompts@.map_values(
                    |s: String| s@,
                )
            },
{
    let st1 = spec_apply_projects(st, ps);
    let ps2 = ps.update(pi, ProjectV { files: ps[pi].files.update(fi, f2), ..ps[pi] });
    let st2 = spec_apply_projects(st1, ps2);
    let sid = f2.session_id;
    lemma_build_index_incremental(st, ps, pi, fi, f2);
    lemma_after_pass_mtime(st, ps, pi, fi);
    // both stores hold exactly the same session ids
    assert forall|id: Seq<char>| st1.0.contains_key(id) implies st2.0.contains_key(id) by {
        if id != sid {
            assert(maps_agree_at(st2, st1, id));
        }
    }
    assert forall|id: Seq<char>| st2.0.contains_key(id) implies st1.0.contains_key(id) by {
        if id != sid {
            assert(maps_agree_at(st2, st1, id));
        }
    }
    assert(st2.0.dom() =~= st1.0.dom());
    // the changed session's prompts come from the new file
    assert forall|k: int|
        0 <= k < v2.len() && (#[trigger] v2[k]).session_id@ == f2.session_id implies v2[
        k
    ].prompts@.map_values(|s: String| s@) == spec_dedup_prompts(
        spec_extract_prompts(f2.content),
    ).map_values(|p: PromptRecordV| p.prompt) by {
        assert(v2[k].prompts@.map_values(|s: String| s@) == rows_of(st2.1, sid).map_values(
            |p: PromptRecordV| p.prompt,
        ));
        assert(rows_of(st2.1, sid) == spec_dedup_prompts(spec_extract_prompts(f2.content)));
    }
    // every other session's element is untouched
    assert forall|k: int, k1: int|
        0 <= k < v2.len() && 0 <= k1 < v1.len() && (#[trigger] v2[k]).session_id@ == (
        #[trigger] v1[k1]).session_id@ && v2[k].session_id@ != f2.session_id implies {
        &&& v2[k].project_path@ == v1[k1].project_path@
        &&& v2[k].dir_name@ == v1[k1].dir_name@
        &&& v2[k].git_branch@ == v1[k1].git_branch@
        &&& v2[k].summary@ == v1[k1].summary@
        &&& v2[k].created_at@ == v1[k1].created_at@
        &&& v2[k].prompts@.map_values(|s: String| s@) == v1[k1].prompts@.map_values(
            |s: String| s@,
        )
    } by {
        let id = v2[k].session_id@;
        assert(maps_agree_at(st2, st1, id));
        assert(st2.0.contains_key(id));
        assert(st2.0[id] == st1.0[id]);
        assert(rows_of(st2.1, id) == rows_of(st1.1, id));
        assert(v2[k].prompts@.map_values(|s: String| s@) == rows_of(st2.1, id).map_values(
            |p: PromptRecordV| p.prompt,
        ));
        assert(v1[k1].prompts@.map_values(|s: String| s@) == rows_of(st1.1, id).map_values(
            |p: PromptRecordV| p.prompt,
        ));
    }
}

} // verus!
