//! The persistent index store: one row per session, one row per extracted
//! prompt, kept in a SQLite database. The store is modeled by two maps — the
//! session rows keyed by session id, and each session's prompt rows in
//! insertion order — and every operation's contract says how it moves them.
//! Only the single-statement calls into rusqlite are taken on trust; the
//! delete-then-insert replacement of a session's prompts, including the
//! duplicate handling of the unique constraint, is verified code.
use vstd::prelude::*;
use crate::strutil::spec_str_le;

verus! {

/// One persisted session row.
#[derive(Debug, Clone)]
pub struct SessionRecord {
    pub session_id: String,
    pub project_path: String,
    pub dir_name: String,
    pub git_branch: String,
    pub summary: String,
    pub first_prompt: String,
    pub message_count: i64,
    pub created_at: String,
    pub modified_at: String,
    /// Modification time of the session file, in epoch milliseconds — the
    /// change-detection key of the incremental build.
    pub file_mtime: i64,
}

/// A [`SessionRecord`] by its mathematical content.
#[verifier::ext_equal]
pub struct SessionRecordV {
    pub session_id: Seq<char>,
    pub project_path: Seq<char>,
    pub dir_name: Seq<char>,
    pub git_branch: Seq<char>,
    pub summary: Seq<char>,
    pub first_prompt: Seq<char>,
    pub message_count: i64,
    pub created_at: Seq<char>,
    pub modified_at: Seq<char>,
    pub file_mtime: i64,
}

impl View for SessionRecord {
    type V = SessionRecordV;

    open spec fn view(&self) -> SessionRecordV {
        SessionRecordV {
            session_id: self.session_id@,
            project_path: self.project_path@,
            dir_name: self.dir_name@,
            git_branch: self.git_branch@,
            summary: self.summary@,
            first_prompt: self.first_prompt@,
            message_count: self.message_count,
            created_at: self.created_at@,
            modified_at: self.modified_at@,
            file_mtime: self.file_mtime,
        }
    }
}

/// One extracted user prompt of a session.
#[derive(Debug, Clone)]
pub struct PromptRecord {
    pub prompt: String,
    pub timestamp: Option<String>,
}

/// A [`PromptRecord`] by its mathematical content.
#[verifier::ext_equal]
pub struct PromptRecordV {
    pub prompt: Seq<char>,
    pub timestamp: Option<Seq<char>>,
}

impl View for PromptRecord {
    type V = PromptRecordV;

    open spec fn view(&self) -> PromptRecordV {
        PromptRecordV {
            prompt: self.prompt@,
            timestamp: match self.timestamp {
                Some(ref t) => Some(t@),
                None => None,
            },
        }
    }
}

/// One session as the global search loads it: its row plus its prompts.
#[derive(Debug, Clone)]
pub struct SearchableSession {
    pub session_id: String,
    pub project_path: String,
    pub dir_name: String,
    pub git_branch: String,
    pub summary: String,
    pub created_at: String,
    pub prompts: Vec<String>,
}

/// Why a store operation failed.
#[derive(Debug, Clone, Copy, PartialEq, Eq, Structural)]
pub enum IndexError {
    /// The database file could not be opened or its schema not created.
    Open,
    /// A statement against the open database failed.
    Query,
}

#[verifier::external_type_specification]
#[verifier::external_body]
pub struct ExConnection(rusqlite::Connection);

/// The session rows the store's database holds, keyed by session id.
pub uninterp spec fn db_sessions(ix: SessionIndex) -> Map<Seq<char>, SessionRecordV>;

/// The prompt rows the store's database holds, per session id, in insertion
/// order.
pub uninterp spec fn db_prompts(ix: SessionIndex) -> Map<Seq<char>, Seq<PromptRecordV>>;

/// A session's prompt rows: none where the id is unknown.
pub open spec fn rows_of(m: Map<Seq<char>, Seq<PromptRecordV>>, sid: Seq<char>) -> Seq<
    PromptRecordV,
> {
    if m.contains_key(sid) {
        m[sid]
    } else {
        Seq::empty()
    }
}

/// Whether inserting `p` under the unique constraint on (session id, prompt,
/// timestamp) conflicts with a stored row: never when its timestamp is null,
/// which SQLite treats as distinct from every value.
pub open spec fn row_conflicts(rows: Seq<PromptRecordV>, p: PromptRecordV) -> bool {
    p.timestamp is Some && exists|j: int| 0 <= j < rows.len() && rows[j] == p
}

/// Whether the row at `i` survives the insertion pass: rows without a
/// timestamp always do, others only as the first of their kind.
pub open spec fn prompt_kept(s: Seq<PromptRecordV>, i: int) -> bool {
    s[i].timestamp is None || forall|j: int| 0 <= j < i ==> s[j] != s[i]
}

pub open spec fn dedup_upto(s: Seq<PromptRecordV>, n: int) -> Seq<PromptRecordV>
    decreases n,
{
    if n <= 0 {
        Seq::empty()
    } else if prompt_kept(s, n - 1) {
        dedup_upto(s, n - 1).push(s[n - 1])
    } else {
        dedup_upto(s, n - 1)
    }
}

/// What replacing a session's prompts stores: the list in order, exact
/// duplicates (same prompt and same non-null timestamp) skipped.
pub open spec fn spec_dedup_prompts(s: Seq<PromptRecordV>) -> Seq<PromptRecordV> {
    dedup_upto(s, s.len() as int)
}

/// The deduplicated prefix holds exactly the values of the prefix.
proof fn lemma_dedup_membership(s: Seq<PromptRecordV>, n: int, p: PromptRecordV)
    requires
        0 <= n <= s.len(),
    ensures
        dedup_upto(s, n).contains(p) <==> exists|j: int| 0 <= j < n && s[j] == p,
    decreases n,
{
    if n > 0 {
        lemma_dedup_membership(s, n - 1, p);
        let d = dedup_upto(s, n - 1);
        if prompt_kept(s, n - 1) {
            let q = d.push(s[n - 1]);
            assert forall|k: int| 0 <= k < q.len() && #[trigger] q[k] == p implies exists|j: int|
                0 <= j < n && s[j] == p by {
                if k < d.len() {
                    assert(d[k] == p);
                    assert(d.contains(p));
                } else {
                    assert(s[n - 1] == p);
                }
            }
            if exists|j: int| 0 <= j < n && s[j] == p {
                let j = choose|j: int| 0 <= j < n && #[trigger] s[j] == p;
                if j < n - 1 {
                    let k = choose|k: int| 0 <= k < d.len() && #[trigger] d[k] == p;
                    assert(d.push(s[n - 1])[k] == p);
                } else {
                    assert(d.push(s[n - 1])[d.len() as int] == p);
                }
            }
        } else {
            if exists|j: int| 0 <= j < n && s[j] == p {
                let j = choose|j: int| 0 <= j < n && #[trigger] s[j] == p;
                if j == n - 1 {
                    // not kept: a timestamped duplicate has an earlier equal
                    assert(s[n - 1].timestamp is Some);
                    let j2 = choose|j2: int| 0 <= j2 < n - 1 && #[trigger] s[j2] == s[n - 1];
                    assert(s[j2] == p);
                }
            }
        }
    }
}

/// What a global-search view of a store state holds: one element per stored
/// session, carrying that session's row fields and its prompt texts in
/// insertion order; no id twice, every stored id present, newest first.
pub open spec fn search_view_ok(
    sessions: Map<Seq<char>, SessionRecordV>,
    prompts: Map<Seq<char>, Seq<PromptRecordV>>,
    v: Seq<SearchableSession>,
) -> bool {
    &&& forall|i: int|
        0 <= i < v.len() ==> {
            let sid = (#[trigger] v[i]).session_id@;
            &&& sessions.contains_key(sid)
            &&& v[i].project_path@ == sessions[sid].project_path
            &&& v[i].dir_name@ == sessions[sid].dir_name
            &&& v[i].git_branch@ == sessions[sid].git_branch
            &&& v[i].summary@ == sessions[sid].summary
            &&& v[i].created_at@ == sessions[sid].created_at
            &&& v[i].prompts@.map_values(|s: String| s@) == rows_of(prompts, sid).map_values(
                |p: PromptRecordV| p.prompt,
            )
        }
    &&& forall|i: int, j: int|
        0 <= i < j < v.len() ==> (#[trigger] v[i]).session_id@ != (#[trigger] v[j]).session_id@
    &&& v.map_values(|s: SearchableSession| s.session_id@).to_set() == sessions.dom()
    &&& forall|i: int, j: int|
        0 <= i < j < v.len() ==> spec_str_le(
            (#[trigger] v[j]).created_at@,
            (#[trigger] v[i]).created_at@,
        )
}

/// The persistent index store, open on its database.
pub struct SessionIndex {
    conn: rusqlite::Connection,
}

impl SessionIndex {
    /// The session rows this store holds.
    pub open spec fn sessions(&self) -> Map<Seq<char>, SessionRecordV> {
        db_sessions(*self)
    }

    /// The prompt rows this store holds.
    pub open spec fn prompts(&self) -> Map<Seq<char>, Seq<PromptRecordV>> {
        db_prompts(*self)
    }

    /// Relies on rusqlite's `Connection::open` and `execute_batch`: opens or
    /// creates the database file and creates the two tables if absent.
    #[verifier::external_body]
    pub fn open(db_path: &str) -> Result<SessionIndex, IndexError> {
        let conn = match rusqlite::Connection::open(db_path) {
            Ok(c) => c,
            Err(_) => return Err(IndexError::Open),
        };
        match conn.execute_batch(
            "CREATE TABLE IF NOT EXISTS sessions (session_id TEXT PRIMARY KEY, project_path TEXT NOT NULL, dir_name TEXT NOT NULL, git_branch TEXT DEFAULT '', summary TEXT DEFAULT '', first_prompt TEXT DEFAULT '', message_count INTEGER DEFAULT 0, created_at TEXT DEFAULT '', modified_at TEXT DEFAULT '', file_mtime INTEGER DEFAULT 0); CREATE TABLE IF NOT EXISTS user_prompts (id INTEGER PRIMARY KEY AUTOINCREMENT, session_id TEXT NOT NULL REFERENCES sessions(session_id), prompt TEXT NOT NULL, timestamp TEXT, UNIQUE(session_id, prompt, timestamp));",
        ) {
            Ok(()) => Ok(SessionIndex { conn }),
            Err(_) => Err(IndexError::Open),
        }
    }

    /// Relies on rusqlite's `Connection::open_in_memory`: a fresh database
    /// holding no rows at all.
    #[verifier::external_body]
    pub fn open_in_memory() -> (r: Result<SessionIndex, IndexError>)
        ensures
            r matches Ok(ix) ==> db_sessions(ix).dom() == Set::<Seq<char>>::empty(),
            r matches Ok(ix) ==> db_prompts(ix).dom() == Set::<Seq<char>>::empty(),
    {
        let conn = match rusqlite::Connection::open_in_memory() {
            Ok(c) => c,
            Err(_) => return Err(IndexError::Open),
        };
        match conn.execute_batch(
            "CREATE TABLE IF NOT EXISTS sessions (session_id TEXT PRIMARY KEY, project_path TEXT NOT NULL, dir_name TEXT NOT NULL, git_branch TEXT DEFAULT '', summary TEXT DEFAULT '', first_prompt TEXT DEFAULT '', message_count INTEGER DEFAULT 0, created_at TEXT DEFAULT '', modified_at TEXT DEFAULT '', file_mtime INTEGER DEFAULT 0); CREATE TABLE IF NOT EXISTS user_prompts (id INTEGER PRIMARY KEY AUTOINCREMENT, session_id TEXT NOT NULL REFERENCES sessions(session_id), prompt TEXT NOT NULL, timestamp TEXT, UNIQUE(session_id, prompt, timestamp));",
        ) {
            Ok(()) => Ok(SessionIndex { conn }),
            Err(_) => Err(IndexError::Open),
        }
    }

    /// Relies on rusqlite's `Connection::execute` with an upsert statement:
    /// inserts the row or overwrites every non-key field of it.
    #[verifier::external_body]
    pub fn upsert_session(&mut self, rec: &SessionRecord) -> (r: Result<(), IndexError>)
        ensures
            r is Ok ==> db_sessions(*final(self)) == db_sessions(*old(self)).insert(
                rec.session_id@,
                rec@,
            ) && db_prompts(*final(self)) == db_prompts(*old(self)),
    {
        let r = self.conn.execute(
            "INSERT INTO sessions (session_id, project_path, dir_name, git_branch, summary, first_prompt, message_count, created_at, modified_at, file_mtime) VALUES (?1, ?2, ?3, ?4, ?5, ?6, ?7, ?8, ?9, ?10) ON CONFLICT(session_id) DO UPDATE SET project_path = excluded.project_path, dir_name = excluded.dir_name, git_branch = excluded.git_branch, summary = excluded.summary, first_prompt = excluded.first_prompt, message_count = excluded.message_count, created_at = excluded.created_at, modified_at = excluded.modified_at, file_mtime = excluded.file_mtime",
            (&rec.session_id, &rec.project_path, &rec.dir_name, &rec.git_branch, &rec.summary, &rec.first_prompt, &rec.message_count, &rec.created_at, &rec.modified_at, &rec.file_mtime),
        );
        match r {
            Ok(_) => Ok(()),
            Err(_) => Err(IndexError::Query),
        }
    }

    /// Relies on rusqlite's `Connection::execute` with a delete statement:
    /// removes every prompt row of the session.
    #[verifier::external_body]
    fn delete_prompts(&mut self, session_id: &str) -> (r: Result<(), IndexError>)
        ensures
            r is Ok ==> db_prompts(*final(self)) == db_prompts(*old(self)).insert(
                session_id@,
                Seq::<PromptRecordV>::empty(),
            ) && db_sessions(*final(self)) == db_sessions(*old(self)),
    {
        match self.conn.execute("DELETE FROM user_prompts WHERE session_id = ?1", [session_id]) {
            Ok(_) => Ok(()),
            Err(_) => Err(IndexError::Query),
        }
    }

    /// Relies on rusqlite's `Connection::execute` with `INSERT OR IGNORE`:
    /// appends the prompt row unless an equal row (same prompt, same non-null
    /// timestamp) is already stored for this session.
    #[verifier::external_body]
    fn insert_prompt_row(&mut self, session_id: &str, p: &PromptRecord) -> (r: Result<
        (),
        IndexError,
    >)
        ensures
            r is Ok ==> db_sessions(*final(self)) == db_sessions(*old(self))
                && db_prompts(*final(self)) == db_prompts(*old(self)).insert(
                session_id@,
                if row_conflicts(rows_of(db_prompts(*old(self)), session_id@), p@) {
                    rows_of(db_prompts(*old(self)), session_id@)
                } else {
                    rows_of(db_prompts(*old(self)), session_id@).push(p@)
                },
            ),
    {
        let r = self.conn.execute(
            "INSERT OR IGNORE INTO user_prompts (session_id, prompt, timestamp) VALUES (?1, ?2, ?3)",
            (session_id, &p.prompt, &p.timestamp),
        );
        match r {
            Ok(_) => Ok(()),
            Err(_) => Err(IndexError::Query),
        }
    }

    /// Replace the session's prompt rows by the given list: every stored row
    /// is deleted, then the list is inserted in order, exact duplicates
    /// skipped by the unique constraint.
    pub fn insert_prompts(&mut self, session_id: &str, prompts: &Vec<PromptRecord>) -> (r: Result<
        (),
        IndexError,
    >)
        ensures
            r is Ok ==> final(self).sessions() == old(self).sessions() && final(self).prompts()
                == old(self).prompts().insert(
                session_id@,
                spec_dedup_prompts(prompts@.map_values(|p: PromptRecord| p@)),
            ),
    {
        let ghost pviews = prompts@.map_values(|p: PromptRecord| p@);
        match self.delete_prompts(session_id) {
            Ok(()) => {},
            Err(e) => {
                return Err(e);
            },
        }
        let ghost base_prompts = self.prompts();
        let ghost base_sessions = self.sessions();
        let n = prompts.len();
        assert(rows_of(self.prompts(), session_id@) =~= dedup_upto(pviews, 0));
        for i in 0..n
            invariant
                n == prompts@.len(),
                pviews == prompts@.map_values(|p: PromptRecord| p@),
                pviews.len() == n,
                self.sessions() == base_sessions,
                self.prompts() == base_prompts.insert(session_id@, dedup_upto(pviews, i as int)),
        {
            proof {
                lemma_dedup_membership(pviews, i as int, pviews[i as int]);
            }
            let ghost before = self.prompts();
            match self.insert_prompt_row(session_id, &prompts[i]) {
                Ok(()) => {},
                Err(e) => {
                    return Err(e);
                },
            }
            proof {
                assert(rows_of(before, session_id@) == dedup_upto(pviews, i as int));
                assert((prompts@[i as int])@ == pviews[i as int]);
                let stored = dedup_upto(pviews, i as int);
                if row_conflicts(stored, pviews[i as int]) {
                    assert(stored.contains(pviews[i as int]));
                    assert(!prompt_kept(pviews, i as int));
                    assert(dedup_upto(pviews, i + 1 as int) == stored);
                } else {
                    if !prompt_kept(pviews, i as int) {
                        assert(pviews[i as int].timestamp is Some);
                        let j = choose|j: int|
                            0 <= j < i && pviews[j] == pviews[i as int];
                        assert(stored.contains(pviews[i as int]));
                        let k = choose|k: int|
                            0 <= k < stored.len() && stored[k] == pviews[i as int];
                        assert(row_conflicts(stored, pviews[i as int]));
                        assert(false);
                    }
                    assert(dedup_upto(pviews, i + 1 as int) == stored.push(pviews[i as int]));
                }
                assert(self.prompts() =~= base_prompts.insert(
                    session_id@,
                    dedup_upto(pviews, i + 1 as int),
                ));
            }
        }
        assert(dedup_upto(pviews, n as int) == spec_dedup_prompts(pviews));
        Ok(())
    }

    /// Relies on rusqlite's `prepare` and `query`: the stored modification
    /// time of the session's file, or nothing when the session is unknown.
    #[verifier::external_body]
    pub fn get_file_mtime(&self, session_id: &str) -> (r: Result<Option<i64>, IndexError>)
        ensures
            r matches Ok(m) ==> m == (if db_sessions(*self).contains_key(session_id@) {
                Some(db_sessions(*self)[session_id@].file_mtime)
            } else {
                None
            }),
    {
        let res: rusqlite::Result<Option<i64>> = (|| {
            let mut stmt = self.conn.prepare(
                "SELECT file_mtime FROM sessions WHERE session_id = ?1",
            )?;
            let mut rows = stmt.query([session_id])?;
            match rows.next()? {
                Some(row) => Ok(Some(row.get(0)?)),
                None => Ok(None),
            }
        })();
        res.map_err(|_| IndexError::Query)
    }

    /// Relies on rusqlite's `prepare` and `query`: every stored session row,
    /// ordered by `created_at` descending (byte-wise on the text), ties in
    /// some order.
    #[verifier::external_body]
    fn all_sessions_rows(&self) -> (r: Result<Vec<SessionRecord>, IndexError>)
        ensures
            r matches Ok(v) ==> {
                &&& forall|i: int|
                    0 <= i < v.len() ==> db_sessions(*self).contains_key(
                        (#[trigger] v[i]).session_id@,
                    ) && v[i]@ == db_sessions(*self)[v[i].session_id@]
                &&& forall|i: int, j: int|
                    0 <= i < j < v.len() ==> (#[trigger] v[i]).session_id@ != (
                    #[trigger] v[j]).session_id@
                &&& forall|k: Seq<char>|
                    #[trigger] db_sessions(*self).contains_key(k) ==> exists|i: int|
                        0 <= i < v.len() && (#[trigger] v[i]).session_id@ == k
                &&& forall|i: int, j: int|
                    0 <= i < j < v.len() ==> spec_str_le(
                        (#[trigger] v[j]).created_at@,
                        (#[trigger] v[i]).created_at@,
                    )
            },
    {
        let res: rusqlite::Result<Vec<SessionRecord>> = (|| {
            let mut stmt = self.conn.prepare(
                "SELECT session_id, project_path, dir_name, git_branch, summary, first_prompt, message_count, created_at, modified_at, file_mtime FROM sessions ORDER BY created_at DESC",
            )?;
            let mut rows = stmt.query([])?;
            let mut out = Vec::new();
            while let Some(row) = rows.next()? {
                out.push(SessionRecord { session_id: row.get(0)?, project_path: row.get(1)?, dir_name: row.get(2)?, git_branch: row.get(3)?, summary: row.get(4)?, first_prompt: row.get(5)?, message_count: row.get(6)?, created_at: row.get(7)?, modified_at: row.get(8)?, file_mtime: row.get(9)? });
            }
            Ok(out)
        })();
        res.map_err(|_| IndexError::Query)
    }

    /// Relies on rusqlite's `prepare` and `query`: the session's prompt
    /// texts, in insertion order.
    #[verifier::external_body]
    fn prompts_of(&self, session_id: &str) -> (r: Result<Vec<String>, IndexError>)
        ensures
            r matches Ok(v) ==> v@.map_values(|s: String| s@) == rows_of(
                db_prompts(*self),
                session_id@,
            ).map_values(|p: PromptRecordV| p.prompt),
    {
        let res: rusqlite::Result<Vec<String>> = (|| {
            let mut stmt = self.conn.prepare(
                "SELECT prompt FROM user_prompts WHERE session_id = ?1 ORDER BY id",
            )?;
            let mut rows = stmt.query([session_id])?;
            let mut out = Vec::new();
            while let Some(row) = rows.next()? {
                out.push(row.get(0)?);
            }
            Ok(out)
        })();
        res.map_err(|_| IndexError::Query)
    }

    /// Every stored session with its prompts, ordered by `created_at`
    /// descending — the input of the global search.
    #[verifier::rlimit(60)]
    #[verifier::spinoff_prover]
    pub fn search_all(&self) -> (r: Result<Vec<SearchableSession>, IndexError>)
        ensures
            r matches Ok(v) ==> forall|i: int|
                0 <= i < v.len() ==> {
                    let sid = (#[trigger] v[i]).session_id@;
                    &&& self.sessions().contains_key(sid)
                    &&& v[i].project_path@ == self.sessions()[sid].project_path
                    &&& v[i].dir_name@ == self.sessions()[sid].dir_name
                    &&& v[i].git_branch@ == self.sessions()[sid].git_branch
                    &&& v[i].summary@ == self.sessions()[sid].summary
                    &&& v[i].created_at@ == self.sessions()[sid].created_at
                    &&& v[i].prompts@.map_values(|s: String| s@) == rows_of(
                        self.prompts(),
                        sid,
                    ).map_values(|p: PromptRecordV| p.prompt)
                },
            r matches Ok(v) ==> forall|i: int, j: int|
                0 <= i < j < v.len() ==> (#[trigger] v[i]).session_id@ != (
                #[trigger] v[j]).session_id@,
            r matches Ok(v) ==> v@.map_values(|s: SearchableSession| s.session_id@).to_set()
                == self.sessions().dom(),
            r matches Ok(v) ==> forall|i: int, j: int|
                0 <= i < j < v.len() ==> spec_str_le(
                    (#[trigger] v[j]).created_at@,
                    (#[trigger] v[i]).created_at@,
                ),
            r matches Ok(v) ==> search_view_ok(self.sessions(), self.prompts(), v@),
    {
        let rows = match self.all_sessions_rows() {
            Ok(v) => v,
            Err(e) => {
                return Err(e);
            },
        };
        let mut out: Vec<SearchableSession> = Vec::new();
        let n = rows.len();
        for i in 0..n
            invariant
                n == rows@.len(),
                out@.len() == i,
                forall|k: int|
                    0 <= k < n ==> self.sessions().contains_key((#[trigger] rows@[k]).session_id@)
                        && rows@[k]@ == self.sessions()[rows@[k].session_id@],
                forall|k: int, j: int|
                    0 <= k < j < n ==> (#[trigger] rows@[k]).session_id@ != (
                    #[trigger] rows@[j]).session_id@,
                forall|k: int, j: int|
                    0 <= k < j < n ==> spec_str_le(
                        (#[trigger] rows@[j]).created_at@,
                        (#[trigger] rows@[k]).created_at@,
                    ),
                forall|k: int|
                    0 <= k < i ==> (#[trigger] out@[k]).session_id@ == rows@[k].session_id@,
                forall|k: int|
                    0 <= k < i ==> {
                        let sid = (#[trigger] out@[k]).session_id@;
                        &&& out@[k].project_path@ == self.sessions()[sid].project_path
                        &&& out@[k].dir_name@ == self.sessions()[sid].dir_name
                        &&& out@[k].git_branch@ == self.sessions()[sid].git_branch
                        &&& out@[k].summary@ == self.sessions()[sid].summary
                        &&& out@[k].created_at@ == self.sessions()[sid].created_at
                        &&& out@[k].prompts@.map_values(|s: String| s@) == rows_of(
                            self.prompts(),
                            sid,
                        ).map_values(|p: PromptRecordV| p.prompt)
                    },
        {
            let prompts = match self.prompts_of(rows[i].session_id.as_str()) {
                Ok(p) => p,
                Err(e) => {
                    return Err(e);
                },
            };
            let rec = &rows[i];
            out.push(
                SearchableSession {
                    session_id: rec.session_id.clone(),
                    project_path: rec.project_path.clone(),
                    dir_name: rec.dir_name.clone(),
                    git_branch: rec.git_branch.clone(),
                    summary: rec.summary.clone(),
                    created_at: rec.created_at.clone(),
                    prompts,
                },
            );
        }
        proof {
            let ids = out@.map_values(|s: SearchableSession| s.session_id@);
            assert forall|k: Seq<char>| ids.to_set().contains(k) implies #[trigger]
                self.sessions().dom().contains(k) by {
                let idx = choose|idx: int| 0 <= idx < ids.len() && #[trigger] ids[idx] == k;
                assert(out@[idx].session_id@ == k);
            }
            assert forall|k: Seq<char>| #[trigger]
                self.sessions().dom().contains(k) implies ids.to_set().contains(k) by {
                let i2 = choose|i2: int|
                    0 <= i2 < rows@.len() && (#[trigger] rows@[i2]).session_id@ == k;
                assert(ids[i2] == k);
                assert(ids.contains(k));
            }
            assert(ids.to_set() =~= self.sessions().dom());
        }
        Ok(out)
    }

    /// Every stored session id.
    #[verifier::rlimit(60)]
    #[verifier::spinoff_prover]
    pub fn all_session_ids(&self) -> (r: Result<Vec<String>, IndexError>)
        ensures
            r matches Ok(v) ==> forall|i: int|
                0 <= i < v.len() ==> self.sessions().contains_key((#[trigger] v[i])@),
            r matches Ok(v) ==> forall|i: int, j: int|
                0 <= i < j < v.len() ==> (#[trigger] v[i])@ != (#[trigger] v[j])@,
            r matches Ok(v) ==> v@.map_values(|s: String| s@).to_set() == self.sessions().dom(),
    {
        let rows = match self.all_sessions_rows() {
            Ok(v) => v,
            Err(e) => {
                return Err(e);
            },
        };
        let mut out: Vec<String> = Vec::new();
        let n = rows.len();
        for i in 0..n
            invariant
                n == rows@.len(),
                out@.len() == i,
                forall|k: int|
                    0 <= k < n ==> self.sessions().contains_key(
                        (#[trigger] rows@[k]).session_id@,
                    ),
                forall|k: int, j: int|
                    0 <= k < j < n ==> (#[trigger] rows@[k]).session_id@ != (
                    #[trigger] rows@[j]).session_id@,
                forall|k: int| 0 <= k < i ==> (#[trigger] out@[k])@ == rows@[k].session_id@,
        {
            out.push(rows[i].session_id.clone());
        }
        proof {
            let ids = out@.map_values(|s: String| s@);
            assert forall|k: Seq<char>| ids.to_set().contains(k) implies #[trigger]
                self.sessions().dom().contains(k) by {
                let idx = choose|idx: int| 0 <= idx < ids.len() && #[trigger] ids[idx] == k;
                assert(out@[idx]@ == k);
            }
            assert forall|k: Seq<char>| #[trigger]
                self.sessions().dom().contains(k) implies ids.to_set().contains(k) by {
                let i2 = choose|i2: int|
                    0 <= i2 < rows@.len() && (#[trigger] rows@[i2]).session_id@ == k;
                assert(ids[i2] == k);
                assert(ids.contains(k));
            }
            assert(ids.to_set() =~= self.sessions().dom());
        }
        Ok(out)
    }
}

} // verus!
