use vstd::prelude::*;

verus! {

#[verifier::external_type_specification]
#[verifier::external_body]
pub struct ExConnection(rusqlite::Connection);

#[verifier::external_type_specification]
#[verifier::external_body]
pub struct ExSqlError(rusqlite::Error);

/// One row of the prompts table, with every column as the engine stores it.
#[derive(Clone, Debug)]
pub struct StoredRow {
    pub id: i64,
    pub title: String,
    pub content: String,
    pub tags: String,
    pub created_at: String,
    pub updated_at: String,
    pub last_used: Option<String>,
    pub sort_order: Option<i64>,
}

/// Relies on `rusqlite::Connection::open`: opens or creates the database file
/// at `path` (`:memory:` gives a private in-memory database).
#[verifier::external_body]
pub(crate) fn open_connection(path: &str) -> (r: Result<rusqlite::Connection, rusqlite::Error>) {
    rusqlite::Connection::open(path)
}

/// Relies on `rusqlite::Connection::execute`: runs one statement, binding the
/// texts to the first parameters and the integers to the ones after them.
#[verifier::external_body]
pub(crate) fn execute(
    conn: &rusqlite::Connection,
    sql: &str,
    texts: &Vec<String>,
    ints: &Vec<i64>,
) -> (r: Result<usize, rusqlite::Error>) {
    let values = texts.iter().map(|t| rusqlite::types::Value::Text(t.clone())).chain(
        ints.iter().map(|n| rusqlite::types::Value::Integer(*n)),
    );
    conn.execute(sql, rusqlite::params_from_iter(values))
}

/// Relies on rusqlite's `prepare`, `query`, `Rows::next` and `Row::get`: the second
/// column of every row that `sql` yields, read as text.
#[verifier::external_body]
pub(crate) fn second_column_texts(conn: &rusqlite::Connection, sql: &str) -> (r: Result<
    Vec<String>,
    rusqlite::Error,
>) {
    let mut stmt = conn.prepare(sql)?;
    let mut rows = stmt.query([])?;
    let mut out = Vec::new();
    while let Some(row) = rows.next()? {
        out.push(row.get(1)?);
    }
    Ok(out)
}

/// Relies on rusqlite's `prepare`, `query`, `Rows::next` and `Row::get`: the rows that
/// `sql` yields with the texts bound to its parameters, read column by column.
/// A rank that is not an integer is read as missing.
#[verifier::external_body]
pub(crate) fn fetch_rows(conn: &rusqlite::Connection, sql: &str, texts: &Vec<String>) -> (r:
    Result<Vec<StoredRow>, rusqlite::Error>) {
    let mut stmt = conn.prepare(sql)?;
    let mut rows = stmt.query(rusqlite::params_from_iter(texts.iter()))?;
    let mut out = Vec::new();
    while let Some(row) = rows.next()? {
        out.push(StoredRow {
            id: row.get(0)?, title: row.get(1)?, content: row.get(2)?, tags: row.get(3)?,
            created_at: row.get(4)?, updated_at: row.get(5)?, last_used: row.get(6)?,
            sort_order: row.get(7).ok(),
        });
    }
    Ok(out)
}

/// Relies on the `Display` impl of `rusqlite::Error`: its message.
#[verifier::external_body]
pub(crate) fn error_text(e: &rusqlite::Error) -> (r: String) {
    e.to_string()
}

pub const CREATE_TABLE_SQL: &'static str = "CREATE TABLE IF NOT EXISTS prompts (
    id INTEGER PRIMARY KEY AUTOINCREMENT,
    title TEXT NOT NULL,
    content TEXT NOT NULL,
    tags TEXT NOT NULL,
    created_at TEXT NOT NULL,
    updated_at TEXT NOT NULL,
    last_used TEXT
)";

pub const COLUMNS_SQL: &'static str = "PRAGMA table_info(prompts)";

pub const ADD_RANK_COLUMN_SQL: &'static str = "ALTER TABLE prompts ADD COLUMN sort_order INTEGER DEFAULT 0";

pub const SELECT_ALL_SQL: &'static str = "SELECT id, title, content, tags, created_at, updated_at, last_used, sort_order FROM prompts";

pub const SEARCH_SQL: &'static str = "SELECT id, title, content, tags, created_at, updated_at, last_used, sort_order FROM prompts WHERE title LIKE ?1 OR content LIKE ?1 OR tags LIKE ?1";

pub const INSERT_SQL: &'static str = "INSERT INTO prompts (title, content, tags, created_at, updated_at) VALUES (?1, ?2, ?3, ?4, ?5)";

pub const UPDATE_SQL: &'static str = "UPDATE prompts SET title = ?1, content = ?2, tags = ?3, updated_at = ?4 WHERE id = ?5";

pub const DELETE_SQL: &'static str = "DELETE FROM prompts WHERE id = ?1";

pub const TOUCH_SQL: &'static str = "UPDATE prompts SET last_used = ?1 WHERE id = ?2";

pub const RANK_SQL: &'static str = "UPDATE prompts SET sort_order = ?1 WHERE id = ?2";

pub const BEGIN_SQL: &'static str = "BEGIN";

pub const COMMIT_SQL: &'static str = "COMMIT";

pub const ROLLBACK_SQL: &'static str = "ROLLBACK";

/// A statement that a store has handed to the engine, by what it means.
pub enum Write {
    CreateTable,
    /// The schema query, with the column names it returned.
    Columns { names: Seq<Seq<char>> },
    AddRankColumn,
    Insert { title: Seq<char>, content: Seq<char>, tags: Seq<char> },
    Update { id: i64, title: Seq<char>, content: Seq<char>, tags: Seq<char> },
    Delete { id: i64 },
    Touch { id: i64 },
    Begin,
    Rank { id: i64, rank: int },
    Commit,
    Rollback,
}

/// A statement handed to the engine, and whether the engine accepted it.
pub struct Sent {
    pub write: Write,
    pub accepted: bool,
}

/// `sql` with `texts` bound first and `ints` after them is the statement
/// that `w` stands for. The texts past the given fields of an insert, an
/// update or a touch are the current time; an insert gets the same one twice.
pub open spec fn statement_of(w: Write, sql: Seq<char>, texts: Seq<Seq<char>>, ints: Seq<i64>) -> bool {
    match w {
        Write::CreateTable => sql == CREATE_TABLE_SQL@ && texts.len() == 0 && ints.len() == 0,
        Write::Columns { .. } => false,
        Write::AddRankColumn => sql == ADD_RANK_COLUMN_SQL@ && texts.len() == 0 && ints.len() == 0,
        Write::Insert { title, content, tags } => sql == INSERT_SQL@ && texts.len() == 5
            && texts[0] == title && texts[1] == content && texts[2] == tags && texts[3] == texts[4]
            && ints.len() == 0,
        Write::Update { id, title, content, tags } => sql == UPDATE_SQL@ && texts.len() == 4
            && texts[0] == title && texts[1] == content && texts[2] == tags && ints == seq![id],
        Write::Delete { id } => sql == DELETE_SQL@ && texts.len() == 0 && ints == seq![id],
        Write::Touch { id } => sql == TOUCH_SQL@ && texts.len() == 1 && ints == seq![id],
        Write::Begin => sql == BEGIN_SQL@ && texts.len() == 0 && ints.len() == 0,
        Write::Rank { id, rank } => sql == RANK_SQL@ && texts.len() == 0 && ints.len() == 2
            && ints[0] == rank && ints[1] == id,
        Write::Commit => sql == COMMIT_SQL@ && texts.len() == 0 && ints.len() == 0,
        Write::Rollback => sql == ROLLBACK_SQL@ && texts.len() == 0 && ints.len() == 0,
    }
}

/// A connection and the log of what was handed to it. Entries enter the log
/// only as the statements they stand for are run.
pub struct Engine {
    conn: rusqlite::Connection,
    log: Ghost<Seq<Sent>>,
}

impl Engine {
    /// Every statement handed to the engine through `run` and `columns`,
    /// oldest first, each with whether the engine accepted it.
    pub closed spec fn sent(&self) -> Seq<Sent> {
        self.log@
    }

    pub fn over(conn: rusqlite::Connection) -> (r: Engine)
        ensures
            r.sent() == Seq::<Sent>::empty(),
    {
        Engine { conn, log: Ghost(Seq::empty()) }
    }

    /// Runs the statement that `entry` stands for and logs it with its
    /// outcome.
    pub fn run(&mut self, sql: &str, texts: &Vec<String>, ints: &Vec<i64>, entry: Ghost<Write>) -> (r:
        Result<usize, rusqlite::Error>)
        requires
            statement_of(entry@, sql@, texts@.map_values(|t: String| t@), ints@),
        ensures
            final(self).sent() == old(self).sent().push(Sent { write: entry@, accepted: r is Ok }),
    {
        let r = execute(&self.conn, sql, texts, ints);
        self.log = Ghost(self.log@.push(Sent { write: entry@, accepted: r is Ok }));
        r
    }

    /// Reads the column names of the prompts table and logs the query with
    /// its outcome.
    pub fn columns(&mut self) -> (r: Result<Vec<String>, rusqlite::Error>)
        ensures
            final(self).sent() == old(self).sent().push(
                Sent {
                    write: Write::Columns {
                        names: match r {
                            Ok(c) => c@.map_values(|t: String| t@),
                            Err(_) => Seq::empty(),
                        },
                    },
                    accepted: r is Ok,
                },
            ),
    {
        let r = second_column_texts(&self.conn, COLUMNS_SQL);
        let ghost names = match &r {
            Ok(c) => c@.map_values(|t: String| t@),
            Err(_) => Seq::empty(),
        };
        self.log = Ghost(self.log@.push(Sent { write: Write::Columns { names }, accepted: r is Ok }));
        r
    }

    /// The rows that the query `sql` yields with `texts` bound.
    pub fn rows(&self, sql: &str, texts: &Vec<String>) -> (r: Result<Vec<StoredRow>, rusqlite::Error>) {
        fetch_rows(&self.conn, sql, texts)
    }
}

} // verus!
