use vstd::prelude::*;
use crate::prompt::{Prompt, PromptInput, lemma_ranked_in_order, sorted, sort_prompts};
use crate::sql::{
    Engine, Sent, StoredRow, Write, error_text, open_connection, ADD_RANK_COLUMN_SQL, BEGIN_SQL,
    COMMIT_SQL, CREATE_TABLE_SQL, DELETE_SQL, INSERT_SQL, RANK_SQL, ROLLBACK_SQL, SEARCH_SQL,
    SELECT_ALL_SQL, TOUCH_SQL, UPDATE_SQL,
};
use crate::text::{words, split_tags};
use crate::time::{Timestamp, utc_instant, parse_utc, now_text};

verus! {

/// What went wrong, by the stage at which it happened.
#[derive(Clone, Debug)]
pub enum StoreError {
    /// The store could not be opened, or its schema not brought up to date.
    Init(String),
    /// A read failed, or a stored value could not be read back.
    Query(String),
    /// A change was refused by the engine.
    Write(String),
}

impl StoreError {
    /// The message that the error carries.
    pub open spec fn text(self) -> Seq<char> {
        match self {
            StoreError::Init(m) => m@,
            StoreError::Query(m) => m@,
            StoreError::Write(m) => m@,
        }
    }

    pub fn message(&self) -> (r: String)
        ensures
            r@ == self.text(),
    {
        match self {
            StoreError::Init(m) => m.clone(),
            StoreError::Query(m) => m.clone(),
            StoreError::Write(m) => m.clone(),
        }
    }
}

/// The log of a schema set-up in which every statement was accepted: the
/// table is created if absent, its columns are read, and the rank column is
/// added exactly when they lack it.
pub open spec fn set_up(log: Seq<Sent>) -> bool {
    &&& log.len() >= 2
    &&& log[0] == (Sent { write: Write::CreateTable, accepted: true })
    &&& log[1].accepted
    &&& log[1].write matches Write::Columns { names }
    &&& log == seq![log[0], log[1]] + if names.contains(rank_column()) {
        Seq::<Sent>::empty()
    } else {
        seq![Sent { write: Write::AddRankColumn, accepted: true }]
    }
}

/// The rank assignments of a reorder, each accepted: each id gets its
/// position.
pub open spec fn ranks(ids: Seq<i64>) -> Seq<Sent> {
    Seq::new(ids.len(), |k: int| Sent { write: Write::Rank { id: ids[k], rank: k }, accepted: true })
}

/// What a reorder of `ids` in which every statement was accepted sends.
pub open spec fn committed_batch(before: Seq<Sent>, after: Seq<Sent>, ids: Seq<i64>) -> bool {
    after == before.push(Sent { write: Write::Begin, accepted: true }) + ranks(ids).push(
        Sent { write: Write::Commit, accepted: true },
    )
}

/// What a reorder of `ids` that met a refusal sends: the refused `BEGIN`
/// alone; or the assignments before the refused one, the refused one, and a
/// rollback; or every assignment, the refused commit, and a rollback.
pub open spec fn failed_batch(before: Seq<Sent>, after: Seq<Sent>, ids: Seq<i64>) -> bool {
    let opened = before.push(Sent { write: Write::Begin, accepted: true });
    ||| after == before.push(Sent { write: Write::Begin, accepted: false })
    ||| exists|k: int, b: bool|
        0 <= k < ids.len() && after == opened + ranks(ids.take(k)).push(
            Sent { write: Write::Rank { id: ids[k], rank: k }, accepted: false },
        ).push(Sent { write: Write::Rollback, accepted: b })
    ||| exists|b: bool|
        after == opened + ranks(ids).push(Sent { write: Write::Commit, accepted: false }).push(
            Sent { write: Write::Rollback, accepted: b },
        )
}

/// A reorder by the ids of a listing `ps`, in its order, assigns each id its
/// position in `ps`; and `qs`, the same prompts carrying those ranks, is
/// already in listing order, which a sort keeps.
pub proof fn lemma_reorder_by_listing(ps: Seq<Prompt>, qs: Seq<Prompt>)
    requires
        qs.len() == ps.len(),
        forall|i: int| 0 <= i < qs.len() ==> (#[trigger] qs[i]).id == ps[i].id,
        forall|k: int| 0 <= k < qs.len() ==> ((#[trigger] qs[k]).sort_order matches Some(r) && r == k),
    ensures
        ranks(ps.map_values(|p: Prompt| p.id)) == Seq::new(
            qs.len(),
            |k: int| Sent { write: Write::Rank { id: qs[k].id, rank: k }, accepted: true },
        ),
        sorted(qs),
        qs.map_values(|p: Prompt| p.id) == ps.map_values(|p: Prompt| p.id),
{
    let ids = ps.map_values(|p: Prompt| p.id);
    assert(ranks(ids) =~= Seq::new(
        qs.len(),
        |k: int| Sent { write: Write::Rank { id: qs[k].id, rank: k }, accepted: true },
    ));
    lemma_ranked_in_order(qs);
    assert(qs.map_values(|p: Prompt| p.id) =~= ids);
}

/// A reorder that meets a refusal after its transaction opened ends with a
/// rollback, and never has a commit accepted; where the transaction did not
/// open, nothing else is sent.
pub proof fn lemma_failed_batch_rolled_back(before: Seq<Sent>, after: Seq<Sent>, ids: Seq<i64>)
    requires
        failed_batch(before, after, ids),
    ensures
        after.len() > before.len(),
        after.take(before.len() as int) == before,
        after[before.len() as int].accepted ==> after.last().write == Write::Rollback,
        forall|i: int|
            before.len() <= i < after.len() ==> !((#[trigger] after[i]).write == Write::Commit
                && after[i].accepted),
{
    let opened = before.push(Sent { write: Write::Begin, accepted: true });
    if after == before.push(Sent { write: Write::Begin, accepted: false }) {
        assert(after.take(before.len() as int) =~= before);
    } else if exists|b: bool|
        after == opened + ranks(ids).push(Sent { write: Write::Commit, accepted: false }).push(
            Sent { write: Write::Rollback, accepted: b },
        ) {
        assert(after.take(before.len() as int) =~= before);
        assert forall|i: int| before.len() <= i < after.len() implies !((#[trigger] after[i]).write
            == Write::Commit && after[i].accepted) by {
            if before.len() < i < after.len() - 2 {
                assert(after[i] == ranks(ids)[i - before.len() - 1]);
            }
        }
    } else {
        let (k, b) = choose|k: int, b: bool|
            0 <= k < ids.len() && after == opened + ranks(ids.take(k)).push(
                Sent { write: Write::Rank { id: ids[k], rank: k }, accepted: false },
            ).push(Sent { write: Write::Rollback, accepted: b });
        assert(after.take(before.len() as int) =~= before);
        assert forall|i: int| before.len() <= i < after.len() implies !((#[trigger] after[i]).write
            == Write::Commit && after[i].accepted) by {
            if before.len() < i < after.len() - 2 {
                assert(after[i] == ranks(ids.take(k))[i - before.len() - 1]);
            }
        }
    }
}

/// What a saved input reads back as: title and content unchanged, tags the
/// white-space separated words of the tags text.
pub proof fn lemma_round_trip(input: PromptInput, row: StoredRow, p: Prompt)
    requires
        row.title@ == input.title@,
        row.content@ == input.content@,
        row.tags@ == input.tags@,
        decodes_to(row, p),
    ensures
        p.title@ == input.title@,
        p.content@ == input.content@,
        p.tags@.map_values(|t: String| t@) == words(input.tags@),
{
}

/// The stored timestamps of `row` can all be read.
pub open spec fn decodable(row: StoredRow) -> bool {
    &&& utc_instant(row.created_at@) is Some
    &&& utc_instant(row.updated_at@) is Some
    &&& row.last_used matches Some(s) ==> utc_instant(s@) is Some
}

/// `p` is what `row` reads back as.
pub open spec fn decodes_to(row: StoredRow, p: Prompt) -> bool {
    &&& p.id == row.id
    &&& p.title@ == row.title@
    &&& p.content@ == row.content@
    &&& p.tags@.map_values(|t: String| t@) == words(row.tags@)
    &&& utc_instant(row.created_at@) == Some(p.created_at)
    &&& utc_instant(row.updated_at@) == Some(p.updated_at)
    &&& match row.last_used {
        None => p.last_used is None,
        Some(s) => p.last_used is Some && utc_instant(s@) == p.last_used,
    }
    &&& p.sort_order == row.sort_order
}

/// `ps` is the listing of `rows`: each row read back, in listing order.
pub open spec fn lists(rows: Seq<StoredRow>, ps: Seq<Prompt>) -> bool {
    &&& sorted(ps)
    &&& exists|d: Seq<Prompt>|
        #![trigger d.to_multiset()]
        d.len() == rows.len() && (forall|i: int| 0 <= i < rows.len() ==> decodes_to(
            #[trigger] rows[i],
            d[i],
        )) && d.to_multiset() == ps.to_multiset()
}

fn bad_timestamp() -> (r: StoreError)
    ensures
        r is Query,
{
    StoreError::Query(String::from_str("a stored timestamp is malformed"))
}

/// Reads one stored row back: tags split at white space, timestamps parsed.
pub fn decode_row(row: &StoredRow) -> (r: Result<Prompt, StoreError>)
    ensures
        r is Ok <==> decodable(*row),
        r matches Ok(p) ==> decodes_to(*row, p),
        r matches Err(e) ==> e is Query,
{
    let created_at = match parse_utc(row.created_at.as_str()) {
        Some(t) => t,
        None => return Err(bad_timestamp()),
    };
    let updated_at = match parse_utc(row.updated_at.as_str()) {
        Some(t) => t,
        None => return Err(bad_timestamp()),
    };
    let last_used: Option<Timestamp> = match &row.last_used {
        None => None,
        Some(s) => match parse_utc(s.as_str()) {
            Some(t) => Some(t),
            None => return Err(bad_timestamp()),
        },
    };
    Ok(
        Prompt {
            id: row.id,
            title: row.title.clone(),
            content: row.content.clone(),
            tags: split_tags(row.tags.as_str()),
            created_at,
            updated_at,
            last_used,
            sort_order: row.sort_order,
        },
    )
}

/// Reads every row back and puts them in listing order; fails on the first
/// row that cannot be read.
pub fn arrange(rows: &Vec<StoredRow>) -> (r: Result<Vec<Prompt>, StoreError>)
    ensures
        r is Ok <==> forall|i: int| 0 <= i < rows@.len() ==> decodable(#[trigger] rows@[i]),
        r matches Ok(ps) ==> lists(rows@, ps@),
        r matches Err(e) ==> e is Query,
{
    let mut out: Vec<Prompt> = Vec::new();
    let mut i: usize = 0;
    while i < rows.len()
        invariant
            i <= rows@.len(),
            out@.len() == i,
            forall|k: int| 0 <= k < i ==> decodable(#[trigger] rows@[k]),
            forall|k: int| 0 <= k < i ==> decodes_to(#[trigger] rows@[k], out@[k]),
        decreases rows@.len() - i,
    {
        match decode_row(&rows[i]) {
            Ok(p) => out.push(p),
            Err(e) => return Err(e),
        }
        i = i + 1;
    }
    let ghost d = out@;
    let ps = sort_prompts(out);
    assert(d.len() == rows@.len() && (forall|k: int| 0 <= k < rows@.len() ==> decodes_to(
        #[trigger] rows@[k],
        d[k],
    )) && d.to_multiset() == ps@.to_multiset());
    Ok(ps)
}

/// The pattern that matches every text holding `query`.
pub fn like_pattern(query: &str) -> (r: String)
    ensures
        r@ == seq!['%'] + query@ + seq!['%'],
{
    proof {
        reveal_strlit("%");
    }
    String::from_str("%").concat(query).concat("%")
}

/// The name of the rank column.
pub open spec fn rank_column() -> Seq<char> {
    seq!['s', 'o', 'r', 't', '_', 'o', 'r', 'd', 'e', 'r']
}

/// The table still lacks the rank column.
pub fn needs_rank_column(columns: &Vec<String>) -> (r: bool)
    ensures
        r == !columns@.map_values(|c: String| c@).contains(rank_column()),
{
    proof {
        reveal_strlit("sort_order");
    }
    let name = String::from_str("sort_order");
    assert(name@ =~= rank_column());
    let mut i: usize = 0;
    while i < columns.len()
        invariant
            i <= columns@.len(),
            name@ == rank_column(),
            forall|k: int| 0 <= k < i ==> (#[trigger] columns@[k])@ != rank_column(),
        decreases columns@.len() - i,
    {
        if columns[i] == name {
            assert(columns@.map_values(|c: String| c@)[i as int] == rank_column());
            return false;
        }
        i = i + 1;
    }
    let ghost names = columns@.map_values(|c: String| c@);
    assert forall|k: int| 0 <= k < names.len() implies #[trigger] names[k] != rank_column() by {
        assert(names[k] == columns@[k]@);
    }
    true
}

fn write_error(e: &rusqlite::Error) -> (r: StoreError)
    ensures
        r is Write,
{
    StoreError::Write(error_text(e))
}

/// A prompt store over one engine connection. Every method has the connection
/// to itself for its whole run; callers that share a store serialise access to
/// it.
pub struct Database {
    engine: Engine,
}

impl Database {
    /// Every statement that changes data or schema, and the schema query,
    /// that this store has handed to the engine, oldest first, each with
    /// whether the engine accepted it.
    pub closed spec fn sent(&self) -> Seq<Sent> {
        self.engine.sent()
    }

    /// Opens (or creates) the store file at `path` and brings its schema up
    /// to date, as `with_connection` does.
    pub fn new(path: &str) -> (r: Result<Database, StoreError>)
        ensures
            r matches Ok(db) ==> set_up(db.sent()),
            r matches Err(e) ==> e is Init,
    {
        match open_connection(path) {
            Ok(conn) => Database::with_connection(conn),
            Err(e) => Err(StoreError::Init(error_text(&e))),
        }
    }

    /// Takes over an open connection and brings its schema up to date: the
    /// prompts table is created if absent, and the rank column added, with
    /// rank 0 for every row, where the table lacks it. Fails if any of these
    /// statements is refused.
    pub fn with_connection(conn: rusqlite::Connection) -> (r: Result<Database, StoreError>)
        ensures
            r matches Ok(db) ==> set_up(db.sent()),
            r matches Err(e) ==> e is Init,
    {
        let mut db = Database { engine: Engine::over(conn) };
        match db.migrate() {
            Ok(()) => Ok(db),
            Err(e) => Err(e),
        }
    }

    /// Brings the schema up to date on a store whose log is empty. Succeeds
    /// exactly when every statement it sends is accepted; the rank column is
    /// added exactly when the columns read lack it.
    pub fn migrate(&mut self) -> (r: Result<(), StoreError>)
        requires
            old(self).sent().len() == 0,
        ensures
            r is Ok <==> set_up(final(self).sent()),
            r is Err ==> final(self).sent().len() > 0 && !final(self).sent().last().accepted,
            r matches Err(e) ==> e is Init,
    {
        let none_t: Vec<String> = Vec::new();
        let none_i: Vec<i64> = Vec::new();
        assert(none_t@.map_values(|t: String| t@) =~= Seq::<Seq<char>>::empty());
        let created = self.engine.run(CREATE_TABLE_SQL, &none_t, &none_i, Ghost(Write::CreateTable));
        if let Err(e) = created {
            return Err(StoreError::Init(error_text(&e)));
        }
        let columns = match self.engine.columns() {
            Ok(c) => c,
            Err(e) => return Err(StoreError::Init(error_text(&e))),
        };
        let ghost names = columns@.map_values(|t: String| t@);
        let ghost s0 = self.sent()[0];
        let ghost s1 = self.sent()[1];
        if needs_rank_column(&columns) {
            let added = self.engine.run(
                ADD_RANK_COLUMN_SQL,
                &none_t,
                &none_i,
                Ghost(Write::AddRankColumn),
            );
            if let Err(e) = added {
                return Err(StoreError::Init(error_text(&e)));
            }
            assert(self.sent() =~= seq![s0, s1] + seq![
                Sent { write: Write::AddRankColumn, accepted: true },
            ]);
        } else {
            assert(self.sent() =~= seq![s0, s1] + Seq::<Sent>::empty());
        }
        Ok(())
    }

    /// Every prompt, in listing order.
    pub fn get_all_prompts(&self) -> (r: Result<Vec<Prompt>, StoreError>)
        ensures
            r matches Ok(ps) ==> exists|rows: Seq<StoredRow>| lists(rows, ps@),
            r matches Err(e) ==> e is Query,
    {
        let none_t: Vec<String> = Vec::new();
        match self.engine.rows(SELECT_ALL_SQL, &none_t) {
            Ok(rows) => arrange(&rows),
            Err(e) => Err(StoreError::Query(error_text(&e))),
        }
    }

    /// The prompts whose title, content or tags text holds `query`, in
    /// listing order.
    pub fn search_prompts(&self, query: &str) -> (r: Result<Vec<Prompt>, StoreError>)
        ensures
            r matches Ok(ps) ==> exists|rows: Seq<StoredRow>| lists(rows, ps@),
            r matches Err(e) ==> e is Query,
    {
        let pattern = vec![like_pattern(query)];
        match self.engine.rows(SEARCH_SQL, &pattern) {
            Ok(rows) => arrange(&rows),
            Err(e) => Err(StoreError::Query(error_text(&e))),
        }
    }

    /// Adds a prompt, created and updated now, never used, at rank 0.
    /// Succeeds exactly when the engine accepts the insert.
    pub fn save_prompt(&mut self, prompt_input: &PromptInput) -> (r: Result<(), StoreError>)
        ensures
            final(self).sent() == old(self).sent().push(
                Sent {
                    write: Write::Insert {
                        title: prompt_input.title@,
                        content: prompt_input.content@,
                        tags: prompt_input.tags@,
                    },
                    accepted: r is Ok,
                },
            ),
            r matches Err(e) ==> e is Write,
    {
        let now = now_text();
        let texts = vec![
            prompt_input.title.clone(),
            prompt_input.content.clone(),
            prompt_input.tags.clone(),
            now.clone(),
            now,
        ];
        let none_i: Vec<i64> = Vec::new();
        match self.engine.run(
            INSERT_SQL,
            &texts,
            &none_i,
            Ghost(
                Write::Insert {
                    title: prompt_input.title@,
                    content: prompt_input.content@,
                    tags: prompt_input.tags@,
                },
            ),
        ) {
            Ok(_) => Ok(()),
            Err(e) => Err(write_error(&e)),
        }
    }

    /// Overwrites title, content and tags of prompt `id` and marks it updated
    /// now. Succeeds exactly when the engine accepts the update; an id that
    /// names no prompt changes nothing and is no error.
    pub fn update_prompt(&mut self, id: i64, prompt_input: &PromptInput) -> (r: Result<
        (),
        StoreError,
    >)
        ensures
            final(self).sent() == old(self).sent().push(
                Sent {
                    write: Write::Update {
                        id,
                        title: prompt_input.title@,
                        content: prompt_input.content@,
                        tags: prompt_input.tags@,
                    },
                    accepted: r is Ok,
                },
            ),
            r matches Err(e) ==> e is Write,
    {
        let texts = vec![
            prompt_input.title.clone(),
            prompt_input.content.clone(),
            prompt_input.tags.clone(),
            now_text(),
        ];
        let ints = vec![id];
        assert(ints@ =~= seq![id]);
        match self.engine.run(
            UPDATE_SQL,
            &texts,
            &ints,
            Ghost(
                Write::Update {
                    id,
                    title: prompt_input.title@,
                    content: prompt_input.content@,
                    tags: prompt_input.tags@,
                },
            ),
        ) {
            Ok(_) => Ok(()),
            Err(e) => Err(write_error(&e)),
        }
    }

    /// Removes prompt `id`. Succeeds exactly when the engine accepts the
    /// delete; an id that names no prompt is no error.
    pub fn delete_prompt(&mut self, id: i64) -> (r: Result<(), StoreError>)
        ensures
            final(self).sent() == old(self).sent().push(
                Sent { write: Write::Delete { id }, accepted: r is Ok },
            ),
            r matches Err(e) ==> e is Write,
    {
        let none_t: Vec<String> = Vec::new();
        let ints = vec![id];
        assert(ints@ =~= seq![id]);
        assert(none_t@.map_values(|t: String| t@) =~= Seq::<Seq<char>>::empty());
        match self.engine.run(DELETE_SQL, &none_t, &ints, Ghost(Write::Delete { id })) {
            Ok(_) => Ok(()),
            Err(e) => Err(write_error(&e)),
        }
    }

    /// Marks prompt `id` as used now. Succeeds exactly when the engine
    /// accepts the update; an id that names no prompt is no error.
    pub fn update_last_used(&mut self, id: i64) -> (r: Result<(), StoreError>)
        ensures
            final(self).sent() == old(self).sent().push(
                Sent { write: Write::Touch { id }, accepted: r is Ok },
            ),
            r matches Err(e) ==> e is Write,
    {
        let texts = vec![now_text()];
        let ints = vec![id];
        assert(ints@ =~= seq![id]);
        match self.engine.run(TOUCH_SQL, &texts, &ints, Ghost(Write::Touch { id })) {
            Ok(_) => Ok(()),
            Err(e) => Err(write_error(&e)),
        }
    }

    /// Gives each prompt of `prompt_ids` its position as rank, all in one
    /// transaction. Succeeds exactly when every statement is accepted and the
    /// transaction committed; on the first refusal after it opened, the
    /// transaction is rolled back. Ids that name no prompt are passed over.
    pub fn reorder_prompts(&mut self, prompt_ids: &[i64]) -> (r: Result<(), StoreError>)
        requires
            prompt_ids@.len() <= i64::MAX,
        ensures
            r is Ok ==> committed_batch(old(self).sent(), final(self).sent(), prompt_ids@),
            r is Err ==> failed_batch(old(self).sent(), final(self).sent(), prompt_ids@),
            r matches Err(e) ==> e is Write,
    {
        let ghost start = self.sent();
        let ghost opened = start.push(Sent { write: Write::Begin, accepted: true });
        let none_t: Vec<String> = Vec::new();
        let none_i: Vec<i64> = Vec::new();
        assert(none_t@.map_values(|t: String| t@) =~= Seq::<Seq<char>>::empty());
        if let Err(e) = self.engine.run(BEGIN_SQL, &none_t, &none_i, Ghost(Write::Begin)) {
            return Err(write_error(&e));
        }
        let mut index: usize = 0;
        assert(prompt_ids@.take(0) =~= Seq::<i64>::empty());
        assert(ranks(Seq::<i64>::empty()) =~= Seq::<Sent>::empty());
        assert(self.sent() =~= opened + ranks(prompt_ids@.take(0)));
        while index < prompt_ids.len()
            invariant
                index <= prompt_ids@.len() <= i64::MAX,
                start == old(self).sent(),
                opened == start.push(Sent { write: Write::Begin, accepted: true }),
                none_t@.map_values(|t: String| t@) == Seq::<Seq<char>>::empty(),
                none_i@.len() == 0,
                self.sent() == opened + ranks(prompt_ids@.take(index as int)),
            decreases prompt_ids@.len() - index,
        {
            let ints = vec![index as i64, prompt_ids[index]];
            let ghost entry = Write::Rank { id: prompt_ids@[index as int], rank: index as int };
            let done = self.engine.run(RANK_SQL, &none_t, &ints, Ghost(entry));
            if let Err(e) = done {
                let ghost k: int = index as int;
                let ghost failed = self.sent();
                let _ = self.engine.run(ROLLBACK_SQL, &none_t, &none_i, Ghost(Write::Rollback));
                let ghost b = self.sent().last().accepted;
                assert(self.sent() =~= opened + ranks(prompt_ids@.take(k)).push(
                    Sent { write: Write::Rank { id: prompt_ids@[k], rank: k }, accepted: false },
                ).push(Sent { write: Write::Rollback, accepted: b }));
                return Err(write_error(&e));
            }
            assert(ranks(prompt_ids@.take(index as int)).push(
                Sent { write: entry, accepted: true },
            ) =~= ranks(prompt_ids@.take(index + 1)));
            index = index + 1;
        }
        assert(prompt_ids@.take(index as int) =~= prompt_ids@);
        if let Err(e) = self.engine.run(COMMIT_SQL, &none_t, &none_i, Ghost(Write::Commit)) {
            let _ = self.engine.run(ROLLBACK_SQL, &none_t, &none_i, Ghost(Write::Rollback));
            let ghost b = self.sent().last().accepted;
            assert(self.sent() =~= opened + ranks(prompt_ids@).push(
                Sent { write: Write::Commit, accepted: false },
            ).push(Sent { write: Write::Rollback, accepted: b }));
            return Err(write_error(&e));
        }
        Ok(())
    }
}

} // verus!
