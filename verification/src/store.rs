//! The trusted boundary to the SQLite storage engine.
//!
//! Every item in this file either declares a type of `rusqlite`, names the
//! abstract contents of one of the five tables, or wraps exactly one call
//! into the storage engine (or the clock, or the line counter) behind a
//! contract that Verus believes without proof.  Everything else in the crate
//! is verified against these contracts.
//!
//! The abstract state of a connection is five finite maps, one per table,
//! from row id to row content.  A wrapper that runs a single SQL statement
//! promises the map change that the statement's documentation gives; a failed
//! statement leaves the database as it was.  The contracts ride on the
//! design's single-writer model: exactly one process uses a given database
//! file, and nothing else changes it between or during calls.

use vstd::prelude::*;
use crate::model::{Activity, ActivityType, Count, Project, Repo};

verus! {

#[verifier::external_type_specification]
#[verifier::external_body]
pub struct ExConnection(rusqlite::Connection);

#[verifier::external_type_specification]
#[verifier::external_body]
pub struct ExRusqliteError(rusqlite::Error);

/// The contents of the `projects` table: id to name.
pub uninterp spec fn projects_of(c: rusqlite::Connection) -> Map<u64, Seq<char>>;

/// The contents of the `activitytypes` table: id to (name, description).
pub uninterp spec fn atypes_of(c: rusqlite::Connection) -> Map<u64, (Seq<char>, Option<Seq<char>>)>;

/// The contents of the `repos` table: id to (project, path).
pub uninterp spec fn repos_of(c: rusqlite::Connection) -> Map<u64, (u64, Seq<char>)>;

/// The contents of the `activities` table: id to
/// (project, atype, description, start, end).
pub uninterp spec fn activities_of(c: rusqlite::Connection) -> Map<
    u64,
    (u64, u64, Option<Seq<char>>, u64, Option<u64>),
>;

/// The contents of the `counts` table: id to (repo, date, count).
pub uninterp spec fn counts_of(c: rusqlite::Connection) -> Map<u64, (u64, u64, u64)>;


/// `v` lists the projects table `m`: every element is a row of `m`, every
/// row of `m` appears, and ids are strictly ascending.
pub open spec fn lists_projects(v: Seq<Project>, m: Map<u64, Seq<char>>) -> bool {
    &&& forall|i: int, j: int| 0 <= i < j < v.len() ==> #[trigger] v[i].id < #[trigger] v[j].id
    &&& forall|i: int| 0 <= i < v.len() ==> m.contains_pair(#[trigger] v[i].id, v[i].row())
    &&& forall|id: u64|
        #[trigger] m.dom().contains(id) ==> exists|i: int| 0 <= i < v.len() && #[trigger] v[i].id == id
}

/// `v` lists the activity-types table `m` (see `lists_projects`).
pub open spec fn lists_atypes(v: Seq<ActivityType>, m: Map<u64, (Seq<char>, Option<Seq<char>>)>) -> bool {
    &&& forall|i: int, j: int| 0 <= i < j < v.len() ==> #[trigger] v[i].id < #[trigger] v[j].id
    &&& forall|i: int| 0 <= i < v.len() ==> m.contains_pair(#[trigger] v[i].id, v[i].row())
    &&& forall|id: u64|
        #[trigger] m.dom().contains(id) ==> exists|i: int| 0 <= i < v.len() && #[trigger] v[i].id == id
}

/// `v` lists the repos table `m` (see `lists_projects`).
pub open spec fn lists_repos(v: Seq<Repo>, m: Map<u64, (u64, Seq<char>)>) -> bool {
    &&& forall|i: int, j: int| 0 <= i < j < v.len() ==> #[trigger] v[i].id < #[trigger] v[j].id
    &&& forall|i: int| 0 <= i < v.len() ==> m.contains_pair(#[trigger] v[i].id, v[i].row())
    &&& forall|id: u64|
        #[trigger] m.dom().contains(id) ==> exists|i: int| 0 <= i < v.len() && #[trigger] v[i].id == id
}

/// `v` lists the activities table `m` (see `lists_projects`).
pub open spec fn lists_activities(
    v: Seq<Activity>,
    m: Map<u64, (u64, u64, Option<Seq<char>>, u64, Option<u64>)>,
) -> bool {
    &&& forall|i: int, j: int| 0 <= i < j < v.len() ==> #[trigger] v[i].id < #[trigger] v[j].id
    &&& forall|i: int| 0 <= i < v.len() ==> m.contains_pair(#[trigger] v[i].id, v[i].row())
    &&& forall|id: u64|
        #[trigger] m.dom().contains(id) ==> exists|i: int| 0 <= i < v.len() && #[trigger] v[i].id == id
}

/// `v` lists the counts table `m` (see `lists_projects`).
pub open spec fn lists_counts(v: Seq<Count>, m: Map<u64, (u64, u64, u64)>) -> bool {
    &&& forall|i: int, j: int| 0 <= i < j < v.len() ==> #[trigger] v[i].id < #[trigger] v[j].id
    &&& forall|i: int| 0 <= i < v.len() ==> m.contains_pair(#[trigger] v[i].id, v[i].row())
    &&& forall|id: u64|
        #[trigger] m.dom().contains(id) ==> exists|i: int| 0 <= i < v.len() && #[trigger] v[i].id == id
}

/// All tables of `post` hold what they held in `pre`.
pub open spec fn tables_unchanged(pre: rusqlite::Connection, post: rusqlite::Connection) -> bool {
    &&& projects_of(post) == projects_of(pre)
    &&& atypes_of(post) == atypes_of(pre)
    &&& repos_of(post) == repos_of(pre)
    &&& activities_of(post) == activities_of(pre)
    &&& counts_of(post) == counts_of(pre)
}

/// All tables but `projects` hold what they held in `pre`.
pub open spec fn frame_projects(pre: rusqlite::Connection, post: rusqlite::Connection) -> bool {
    &&& atypes_of(post) == atypes_of(pre)
    &&& repos_of(post) == repos_of(pre)
    &&& activities_of(post) == activities_of(pre)
    &&& counts_of(post) == counts_of(pre)
}

/// All tables but `activitytypes` hold what they held in `pre`.
pub open spec fn frame_atypes(pre: rusqlite::Connection, post: rusqlite::Connection) -> bool {
    &&& projects_of(post) == projects_of(pre)
    &&& repos_of(post) == repos_of(pre)
    &&& activities_of(post) == activities_of(pre)
    &&& counts_of(post) == counts_of(pre)
}

/// All tables but `repos` hold what they held in `pre`.
pub open spec fn frame_repos(pre: rusqlite::Connection, post: rusqlite::Connection) -> bool {
    &&& projects_of(post) == projects_of(pre)
    &&& atypes_of(post) == atypes_of(pre)
    &&& activities_of(post) == activities_of(pre)
    &&& counts_of(post) == counts_of(pre)
}

/// All tables but `activities` hold what they held in `pre`.
pub open spec fn frame_activities(pre: rusqlite::Connection, post: rusqlite::Connection) -> bool {
    &&& projects_of(post) == projects_of(pre)
    &&& atypes_of(post) == atypes_of(pre)
    &&& repos_of(post) == repos_of(pre)
    &&& counts_of(post) == counts_of(pre)
}

/// All tables but `counts` hold what they held in `pre`.
pub open spec fn frame_counts(pre: rusqlite::Connection, post: rusqlite::Connection) -> bool {
    &&& projects_of(post) == projects_of(pre)
    &&& atypes_of(post) == atypes_of(pre)
    &&& repos_of(post) == repos_of(pre)
    &&& activities_of(post) == activities_of(pre)
}

/// Relies on `rusqlite::Connection::open_in_memory`: a fresh in-memory
/// database holds no rows at all.
#[verifier::external_body]
pub(crate) fn open_memory_db() -> (r: Result<rusqlite::Connection, rusqlite::Error>)
    ensures
        r matches Ok(c) ==> {
            &&& projects_of(c) == Map::<u64, Seq<char>>::empty()
            &&& atypes_of(c) == Map::<u64, (Seq<char>, Option<Seq<char>>)>::empty()
            &&& repos_of(c) == Map::<u64, (u64, Seq<char>)>::empty()
            &&& activities_of(c) == Map::<u64, (u64, u64, Option<Seq<char>>, u64, Option<u64>)>::empty()
            &&& counts_of(c) == Map::<u64, (u64, u64, u64)>::empty()
        },
{
    rusqlite::Connection::open_in_memory()
}

/// Relies on `rusqlite::Connection::open`: opens the database file at `path`,
/// creating it if absent.  The file may hold anything, so nothing is promised
/// of the tables.
#[verifier::external_body]
pub(crate) fn open_file_db(path: &str) -> (r: Result<rusqlite::Connection, rusqlite::Error>)
{
    rusqlite::Connection::open(path)
}

/// Relies on `rusqlite::Connection::execute_batch`: `CREATE TABLE IF NOT
/// EXISTS` never adds, changes or removes a row.
#[verifier::external_body]
pub(crate) fn create_tables(conn: &mut rusqlite::Connection) -> (r: Result<(), rusqlite::Error>)
    ensures
        tables_unchanged(*old(conn), *final(conn)),
{
    conn.execute_batch(
        "CREATE TABLE IF NOT EXISTS projects (id INTEGER PRIMARY KEY, name TEXT NOT NULL);
         CREATE TABLE IF NOT EXISTS activitytypes (id INTEGER PRIMARY KEY, name TEXT NOT NULL, description TEXT);
         CREATE TABLE IF NOT EXISTS repos (id INTEGER PRIMARY KEY, project INTEGER NOT NULL, path TEXT NOT NULL);
         CREATE TABLE IF NOT EXISTS activities (id INTEGER PRIMARY KEY, project INTEGER NOT NULL, atype INTEGER NOT NULL, description TEXT, start INTEGER NOT NULL, \"end\" INTEGER);
         CREATE TABLE IF NOT EXISTS counts (id INTEGER PRIMARY KEY, repo INTEGER NOT NULL, date INTEGER NOT NULL, count INTEGER NOT NULL);",
    )
}

// ---------------------------------------------------------------------------
// projects
// ---------------------------------------------------------------------------

/// Relies on `rusqlite::Connection::query_row` running `INSERT .. RETURNING`:
/// SQLite stores the row under a fresh positive rowid (one more than the
/// largest in use) and hands that rowid back; a failed statement changes
/// nothing.
#[verifier::external_body]
pub(crate) fn insert_project_row(conn: &mut rusqlite::Connection, name: &String) -> (r: Result<
    u64,
    rusqlite::Error,
>)
    ensures
        r matches Ok(id) ==> {
            &&& id >= 1
            &&& !projects_of(*old(conn)).dom().contains(id)
            &&& projects_of(*final(conn)) == projects_of(*old(conn)).insert(id, name@)
        },
        r is Err ==> projects_of(*final(conn)) == projects_of(*old(conn)),
        frame_projects(*old(conn), *final(conn)),
{
    conn.query_row("INSERT INTO projects (name) VALUES (?1) RETURNING id", [name], |row| {
        row.get(0)
    })
}

/// Relies on `rusqlite::Statement::query_map` over `SELECT .. ORDER BY id`:
/// the rows come back exactly once each, in ascending id order.
#[verifier::external_body]
pub(crate) fn select_projects(conn: &rusqlite::Connection) -> (r: Result<
    Vec<Project>,
    rusqlite::Error,
>)
    ensures
        r matches Ok(v) ==> lists_projects(v@, projects_of(*conn)),
{
    let mut stmt = conn.prepare("SELECT id, name FROM projects ORDER BY id")?;
    let rows = stmt.query_map([], |row| {
        Ok(Project { id: row.get(0)?, name: row.get(1)? })
    })?;
    rows.collect()
}

/// Relies on `rusqlite::Connection::execute` running `UPDATE .. WHERE id`:
/// the row with that id, if present, is overwritten; nothing else changes.
#[verifier::external_body]
pub(crate) fn update_project_row(conn: &mut rusqlite::Connection, id: u64, name: &String) -> (r:
    Result<(), rusqlite::Error>)
    ensures
        r is Ok ==> projects_of(*final(conn)) == (if projects_of(*old(conn)).dom().contains(id) {
            projects_of(*old(conn)).insert(id, name@)
        } else {
            projects_of(*old(conn))
        }),
        r is Err ==> projects_of(*final(conn)) == projects_of(*old(conn)),
        frame_projects(*old(conn), *final(conn)),
{
    conn.execute("UPDATE projects SET name=?2 WHERE id=?1", (id, name))?;
    Ok(())
}

/// Relies on `rusqlite::Connection::execute` running `DELETE .. WHERE id`:
/// the row with that id, if present, is removed; nothing else changes.
#[verifier::external_body]
pub(crate) fn delete_project_row(conn: &mut rusqlite::Connection, id: u64) -> (r: Result<
    (),
    rusqlite::Error,
>)
    ensures
        r is Ok ==> projects_of(*final(conn)) == projects_of(*old(conn)).remove(id),
        r is Err ==> projects_of(*final(conn)) == projects_of(*old(conn)),
        frame_projects(*old(conn), *final(conn)),
{
    conn.execute("DELETE FROM projects WHERE id=?1", [id])?;
    Ok(())
}

// ---------------------------------------------------------------------------
// activitytypes
// ---------------------------------------------------------------------------

/// Relies on `rusqlite::Connection::query_row` running `INSERT .. RETURNING`:
/// SQLite stores the row under a fresh positive rowid and hands it back.
#[verifier::external_body]
pub(crate) fn insert_atype_row(
    conn: &mut rusqlite::Connection,
    name: &String,
    description: &Option<String>,
) -> (r: Result<u64, rusqlite::Error>)
    ensures
        r matches Ok(id) ==> {
            &&& id >= 1
            &&& !atypes_of(*old(conn)).dom().contains(id)
            &&& atypes_of(*final(conn)) == atypes_of(*old(conn)).insert(
                id,
                (name@, description.deep_view()),
            )
        },
        r is Err ==> atypes_of(*final(conn)) == atypes_of(*old(conn)),
        frame_atypes(*old(conn), *final(conn)),
{
    conn.query_row(
        "INSERT INTO activitytypes (name, description) VALUES (?1, ?2) RETURNING id",
        (name, description),
        |row| row.get(0),
    )
}

/// Relies on `rusqlite::Connection::execute` running `INSERT` with an
/// explicit id: SQLite refuses the statement if the id is in use, and stores
/// the row under that id otherwise.
#[verifier::external_body]
pub(crate) fn insert_atype_row_with_id(
    conn: &mut rusqlite::Connection,
    id: u64,
    name: &String,
    description: &Option<String>,
) -> (r: Result<(), rusqlite::Error>)
    ensures
        r is Ok ==> {
            &&& !atypes_of(*old(conn)).dom().contains(id)
            &&& atypes_of(*final(conn)) == atypes_of(*old(conn)).insert(
                id,
                (name@, description.deep_view()),
            )
        },
        r is Err ==> atypes_of(*final(conn)) == atypes_of(*old(conn)),
        frame_atypes(*old(conn), *final(conn)),
{
    conn.execute(
        "INSERT INTO activitytypes (id, name, description) VALUES (?1, ?2, ?3)",
        (id, name, description),
    )?;
    Ok(())
}

/// Relies on `rusqlite::Statement::query_map` over `SELECT .. ORDER BY id`:
/// the rows come back exactly once each, in ascending id order.
#[verifier::external_body]
pub(crate) fn select_atypes(conn: &rusqlite::Connection) -> (r: Result<
    Vec<ActivityType>,
    rusqlite::Error,
>)
    ensures
        r matches Ok(v) ==> lists_atypes(v@, atypes_of(*conn)),
{
    let mut stmt = conn.prepare("SELECT id, name, description FROM activitytypes ORDER BY id")?;
    let rows = stmt.query_map([], |row| {
        Ok(ActivityType { id: row.get(0)?, name: row.get(1)?, description: row.get(2)? })
    })?;
    rows.collect()
}

/// Relies on `rusqlite::Connection::execute` running `UPDATE .. WHERE id`:
/// the row with that id, if present, is overwritten; nothing else changes.
#[verifier::external_body]
pub(crate) fn update_atype_row(
    conn: &mut rusqlite::Connection,
    id: u64,
    name: &String,
    description: &Option<String>,
) -> (r: Result<(), rusqlite::Error>)
    ensures
        r is Ok ==> atypes_of(*final(conn)) == (if atypes_of(*old(conn)).dom().contains(id) {
            atypes_of(*old(conn)).insert(id, (name@, description.deep_view()))
        } else {
            atypes_of(*old(conn))
        }),
        r is Err ==> atypes_of(*final(conn)) == atypes_of(*old(conn)),
        frame_atypes(*old(conn), *final(conn)),
{
    conn.execute(
        "UPDATE activitytypes SET name=?2, description=?3 WHERE id=?1",
        (id, name, description),
    )?;
    Ok(())
}

/// Relies on `rusqlite::Connection::execute` running `DELETE .. WHERE id`:
/// the row with that id, if present, is removed; nothing else changes.
#[verifier::external_body]
pub(crate) fn delete_atype_row(conn: &mut rusqlite::Connection, id: u64) -> (r: Result<
    (),
    rusqlite::Error,
>)
    ensures
        r is Ok ==> atypes_of(*final(conn)) == atypes_of(*old(conn)).remove(id),
        r is Err ==> atypes_of(*final(conn)) == atypes_of(*old(conn)),
        frame_atypes(*old(conn), *final(conn)),
{
    conn.execute("DELETE FROM activitytypes WHERE id=?1", [id])?;
    Ok(())
}

// ---------------------------------------------------------------------------
// repos
// ---------------------------------------------------------------------------

/// Relies on `rusqlite::Connection::query_row` running `INSERT .. RETURNING`:
/// SQLite stores the row under a fresh positive rowid and hands it back.
#[verifier::external_body]
pub(crate) fn insert_repo_row(
    conn: &mut rusqlite::Connection,
    project: u64,
    path: &String,
) -> (r: Result<u64, rusqlite::Error>)
    ensures
        r matches Ok(id) ==> {
            &&& id >= 1
            &&& !repos_of(*old(conn)).dom().contains(id)
            &&& repos_of(*final(conn)) == repos_of(*old(conn)).insert(id, (project, path@))
        },
        r is Err ==> repos_of(*final(conn)) == repos_of(*old(conn)),
        frame_repos(*old(conn), *final(conn)),
{
    conn.query_row(
        "INSERT INTO repos (project, path) VALUES (?1, ?2) RETURNING id",
        (project, path),
        |row| row.get(0),
    )
}

/// Relies on `rusqlite::Statement::query_map` over `SELECT .. ORDER BY id`:
/// the rows come back exactly once each, in ascending id order.
#[verifier::external_body]
pub(crate) fn select_repos(conn: &rusqlite::Connection) -> (r: Result<
    Vec<Repo>,
    rusqlite::Error,
>)
    ensures
        r matches Ok(v) ==> lists_repos(v@, repos_of(*conn)),
{
    let mut stmt = conn.prepare("SELECT id, project, path FROM repos ORDER BY id")?;
    let rows = stmt.query_map([], |row| {
        Ok(Repo { id: row.get(0)?, project: row.get(1)?, path: row.get(2)? })
    })?;
    rows.collect()
}

/// Relies on `rusqlite::Connection::execute` running `UPDATE .. WHERE id`:
/// the row with that id, if present, is overwritten; nothing else changes.
#[verifier::external_body]
pub(crate) fn update_repo_row(
    conn: &mut rusqlite::Connection,
    id: u64,
    project: u64,
    path: &String,
) -> (r: Result<(), rusqlite::Error>)
    ensures
        r is Ok ==> repos_of(*final(conn)) == (if repos_of(*old(conn)).dom().contains(id) {
            repos_of(*old(conn)).insert(id, (project, path@))
        } else {
            repos_of(*old(conn))
        }),
        r is Err ==> repos_of(*final(conn)) == repos_of(*old(conn)),
        frame_repos(*old(conn), *final(conn)),
{
    conn.execute("UPDATE repos SET project=?2, path=?3 WHERE id=?1", (id, project, path))?;
    Ok(())
}

/// Relies on `rusqlite::Connection::execute` running `DELETE .. WHERE id`:
/// the row with that id, if present, is removed; nothing else changes.
#[verifier::external_body]
pub(crate) fn delete_repo_row(conn: &mut rusqlite::Connection, id: u64) -> (r: Result<
    (),
    rusqlite::Error,
>)
    ensures
        r is Ok ==> repos_of(*final(conn)) == repos_of(*old(conn)).remove(id),
        r is Err ==> repos_of(*final(conn)) == repos_of(*old(conn)),
        frame_repos(*old(conn), *final(conn)),
{
    conn.execute("DELETE FROM repos WHERE id=?1", [id])?;
    Ok(())
}

// ---------------------------------------------------------------------------
// activities
// ---------------------------------------------------------------------------

/// Relies on `rusqlite::Connection::query_row` running `INSERT .. RETURNING`:
/// SQLite stores the row under a fresh positive rowid and hands it back.  The
/// new activity has no end: it is running.
#[verifier::external_body]
pub(crate) fn insert_activity_row(
    conn: &mut rusqlite::Connection,
    project: u64,
    atype: u64,
    description: &Option<String>,
    start: u64,
) -> (r: Result<u64, rusqlite::Error>)
    ensures
        r matches Ok(id) ==> {
            &&& id >= 1
            &&& !activities_of(*old(conn)).dom().contains(id)
            &&& activities_of(*final(conn)) == activities_of(*old(conn)).insert(
                id,
                (project, atype, description.deep_view(), start, None),
            )
        },
        r is Err ==> activities_of(*final(conn)) == activities_of(*old(conn)),
        frame_activities(*old(conn), *final(conn)),
{
    conn.query_row(
        "INSERT INTO activities (project, atype, description, start) VALUES (?1, ?2, ?3, ?4) RETURNING id",
        (project, atype, description, start),
        |row| row.get(0),
    )
}

/// Relies on `rusqlite::Statement::query_map` over `SELECT .. ORDER BY id`:
/// the rows come back exactly once each, in ascending id order.
#[verifier::external_body]
pub(crate) fn select_activities(conn: &rusqlite::Connection) -> (r: Result<
    Vec<Activity>,
    rusqlite::Error,
>)
    ensures
        r matches Ok(v) ==> lists_activities(v@, activities_of(*conn)),
{
    let mut stmt = conn.prepare(
        "SELECT id, project, atype, description, start, \"end\" FROM activities ORDER BY id",
    )?;
    let rows = stmt.query_map([], |row| {
        Ok(Activity {
            id: row.get(0)?,
            project: row.get(1)?,
            atype: row.get(2)?,
            description: row.get(3)?,
            start: row.get(4)?,
            end: row.get(5)?,
        })
    })?;
    rows.collect()
}

/// Relies on `rusqlite::Connection::execute` running `UPDATE .. WHERE id`:
/// the row with that id, if present, is overwritten; nothing else changes.
#[verifier::external_body]
pub(crate) fn update_activity_row(
    conn: &mut rusqlite::Connection,
    id: u64,
    project: u64,
    atype: u64,
    description: &Option<String>,
    start: u64,
    end: Option<u64>,
) -> (r: Result<(), rusqlite::Error>)
    ensures
        r is Ok ==> activities_of(*final(conn)) == (if activities_of(
            *old(conn),
        ).dom().contains(id) {
            activities_of(*old(conn)).insert(
                id,
                (project, atype, description.deep_view(), start, end),
            )
        } else {
            activities_of(*old(conn))
        }),
        r is Err ==> activities_of(*final(conn)) == activities_of(*old(conn)),
        frame_activities(*old(conn), *final(conn)),
{
    conn.execute(
        "UPDATE activities SET project=?2, atype=?3, description=?4, start=?5, \"end\"=?6 WHERE id=?1",
        (id, project, atype, description, start, end),
    )?;
    Ok(())
}

/// Relies on `rusqlite::Connection::execute` running `DELETE .. WHERE id`:
/// the row with that id, if present, is removed; nothing else changes.
#[verifier::external_body]
pub(crate) fn delete_activity_row(conn: &mut rusqlite::Connection, id: u64) -> (r: Result<
    (),
    rusqlite::Error,
>)
    ensures
        r is Ok ==> activities_of(*final(conn)) == activities_of(*old(conn)).remove(id),
        r is Err ==> activities_of(*final(conn)) == activities_of(*old(conn)),
        frame_activities(*old(conn), *final(conn)),
{
    conn.execute("DELETE FROM activities WHERE id=?1", [id])?;
    Ok(())
}

// ---------------------------------------------------------------------------
// counts
// ---------------------------------------------------------------------------

/// Relies on `rusqlite::Connection::query_row` running `INSERT .. RETURNING`:
/// SQLite stores the row under a fresh positive rowid and hands it back.
#[verifier::external_body]
pub(crate) fn insert_count_row(
    conn: &mut rusqlite::Connection,
    repo: u64,
    date: u64,
    count: u64,
) -> (r: Result<u64, rusqlite::Error>)
    ensures
        r matches Ok(id) ==> {
            &&& id >= 1
            &&& !counts_of(*old(conn)).dom().contains(id)
            &&& counts_of(*final(conn)) == counts_of(*old(conn)).insert(id, (repo, date, count))
        },
        r is Err ==> counts_of(*final(conn)) == counts_of(*old(conn)),
        frame_counts(*old(conn), *final(conn)),
{
    conn.query_row(
        "INSERT INTO counts (repo, date, count) VALUES (?1, ?2, ?3) RETURNING id",
        (repo, date, count),
        |row| row.get(0),
    )
}

/// Relies on `rusqlite::Statement::query_map` over `SELECT .. ORDER BY id`:
/// the rows come back exactly once each, in ascending id order.
#[verifier::external_body]
pub(crate) fn select_counts(conn: &rusqlite::Connection) -> (r: Result<
    Vec<Count>,
    rusqlite::Error,
>)
    ensures
        r matches Ok(v) ==> lists_counts(v@, counts_of(*conn)),
{
    let mut stmt = conn.prepare("SELECT id, repo, date, count FROM counts ORDER BY id")?;
    let rows = stmt.query_map([], |row| {
        Ok(Count { id: row.get(0)?, repo: row.get(1)?, date: row.get(2)?, count: row.get(3)? })
    })?;
    rows.collect()
}

/// Relies on `rusqlite::Connection::execute` running `DELETE .. WHERE id`:
/// the row with that id, if present, is removed; nothing else changes.
#[verifier::external_body]
pub(crate) fn delete_count_row(conn: &mut rusqlite::Connection, id: u64) -> (r: Result<
    (),
    rusqlite::Error,
>)
    ensures
        r is Ok ==> counts_of(*final(conn)) == counts_of(*old(conn)).remove(id),
        r is Err ==> counts_of(*final(conn)) == counts_of(*old(conn)),
        frame_counts(*old(conn), *final(conn)),
{
    conn.execute("DELETE FROM counts WHERE id=?1", [id])?;
    Ok(())
}

// ---------------------------------------------------------------------------
// clock and line counter
// ---------------------------------------------------------------------------

/// Relies on `chrono::Utc::now`: the clock's reading is arbitrary, so
/// nothing is promised of it.
#[verifier::external_body]
pub(crate) fn now_timestamp() -> (r: i64)
{
    chrono::Utc::now().timestamp()
}

/// The current clock reading as seconds since the Unix epoch, clamped to
/// zero for readings before the epoch.
pub(crate) fn now_unix() -> (r: u64)
{
    let t = now_timestamp();
    if t >= 0 {
        t as u64
    } else {
        0
    }
}

/// Relies on `tokei::Languages::get_statistics`: walks the file tree under
/// `path`, skipping the `excluded` directory names, and totals the lines of
/// code found.  The result depends on the filesystem at call time, so nothing
/// is promised of it.
#[verifier::external_body]
pub(crate) fn count_lines_of_code(path: &String, excluded: &Vec<String>) -> (r: u64)
{
    let ex: Vec<&str> = excluded.iter().map(|s| s.as_str()).collect();
    let mut languages = tokei::Languages::new();
    languages.get_statistics(&[path.as_str()], &ex, &tokei::Config::default());
    languages.total().code as u64
}

} // verus!
