//! The block store: block payloads keyed by their packed address, in a
//! table `blocks (pos INT PRIMARY KEY, data BLOB)`. Nothing is cached; every
//! call goes to the database. The store keeps a ghost journal of every
//! exchange with the database, which its contracts speak of.
use vstd::prelude::*;
use vstd::string::*;

use rusqlite::Connection;

use crate::address::{spatial_of, HashedCoordinate};
use crate::sql::{execute, open_in_memory, open_path, query_blobs, query_ints};
use crate::statement::{
    blob_rows, int_rows, int_statement, plain_statement, statement_view, write_exchange,
    Exchange, ParamView, SqlParam, SqlStatement,
};
use crate::world::WorldError;

verus! {

pub open spec fn create_blocks_view() -> (Seq<char>, Seq<ParamView>) {
    (
        "CREATE TABLE `blocks` (`pos` INT NOT NULL PRIMARY KEY, `data` BLOB);"@,
        Seq::<ParamView>::empty(),
    )
}

pub open spec fn count_block_view(coord: HashedCoordinate) -> (Seq<char>, Seq<ParamView>) {
    ("SELECT COUNT(*) FROM blocks WHERE pos = ?"@, seq![ParamView::Int(coord.value)])
}

pub open spec fn select_positions_view() -> (Seq<char>, Seq<ParamView>) {
    ("SELECT pos FROM blocks"@, Seq::<ParamView>::empty())
}

pub open spec fn select_block_view(coord: HashedCoordinate) -> (Seq<char>, Seq<ParamView>) {
    ("SELECT data FROM blocks WHERE pos = ?"@, seq![ParamView::Int(coord.value)])
}

pub open spec fn insert_block_view(coord: HashedCoordinate, data: Seq<u8>) -> (
    Seq<char>,
    Seq<ParamView>,
) {
    (
        "INSERT INTO blocks (pos, data) VALUES (?, ?)"@,
        seq![ParamView::Int(coord.value), ParamView::Blob(data)],
    )
}

pub open spec fn delete_block_view(coord: HashedCoordinate) -> (Seq<char>, Seq<ParamView>) {
    ("DELETE FROM blocks WHERE pos = ?"@, seq![ParamView::Int(coord.value)])
}

/// Creates the block table.
pub fn create_blocks_statement() -> (r: SqlStatement)
    ensures
        statement_view(r) == create_blocks_view(),
{
    plain_statement("CREATE TABLE `blocks` (`pos` INT NOT NULL PRIMARY KEY, `data` BLOB);")
}

/// Counts the rows stored at `coord`.
pub fn count_block_statement(coord: HashedCoordinate) -> (r: SqlStatement)
    ensures
        statement_view(r) == count_block_view(coord),
{
    int_statement("SELECT COUNT(*) FROM blocks WHERE pos = ?", coord.value)
}

/// Lists every stored position.
pub fn select_positions_statement() -> (r: SqlStatement)
    ensures
        statement_view(r) == select_positions_view(),
{
    plain_statement("SELECT pos FROM blocks")
}

/// Reads the payload stored at `coord`.
pub fn select_block_statement(coord: HashedCoordinate) -> (r: SqlStatement)
    ensures
        statement_view(r) == select_block_view(coord),
{
    int_statement("SELECT data FROM blocks WHERE pos = ?", coord.value)
}

/// Inserts `data` at `coord`.
pub fn insert_block_statement(coord: HashedCoordinate, data: &Vec<u8>) -> (r: SqlStatement)
    ensures
        statement_view(r) == insert_block_view(coord, data@),
{
    let payload = copy_bytes(data);
    let r = SqlStatement {
        sql: String::from_str("INSERT INTO blocks (pos, data) VALUES (?, ?)"),
        params: vec![SqlParam::Int(coord.value), SqlParam::Blob(payload)],
    };
    assert(statement_view(r).1 =~= insert_block_view(coord, data@).1);
    r
}

/// Deletes the row at `coord`.
pub fn delete_block_statement(coord: HashedCoordinate) -> (r: SqlStatement)
    ensures
        statement_view(r) == delete_block_view(coord),
{
    int_statement("DELETE FROM blocks WHERE pos = ?", coord.value)
}

fn copy_bytes(data: &Vec<u8>) -> (r: Vec<u8>)
    ensures
        r@ == data@,
{
    let mut r: Vec<u8> = Vec::new();
    let mut i: usize = 0;
    while i < data.len()
        invariant
            i <= data@.len(),
            r@ == data@.subrange(0, i as int),
        decreases data@.len() - i,
    {
        r.push(data[i]);
        assert(r@ =~= data@.subrange(0, i + 1));
        i = i + 1;
    }
    assert(data@.subrange(0, i as int) =~= data@);
    r
}

/// A storage failure carrying `msg`.
pub(crate) fn database_error(msg: &str) -> (r: WorldError)
    ensures
        r matches WorldError::DatabaseError(m) && m@ == msg@,
{
    WorldError::DatabaseError(String::from_str(msg))
}

/// Whether the result of a `COUNT(*)` query counts at least one row.
pub fn counts_any(counts: &Vec<i64>) -> (r: bool)
    ensures
        r == (counts@.len() > 0 && counts@[0] > 0),
{
    counts.len() > 0 && counts[0] > 0
}

/// The addresses that stored positions stand for, in the same order.
pub fn coordinates_of(positions: &Vec<i64>) -> (r: Vec<HashedCoordinate>)
    ensures
        r@.len() == positions@.len(),
        forall|i: int| 0 <= i < r@.len() ==> r@[i].value == positions@[i],
{
    let mut r: Vec<HashedCoordinate> = Vec::new();
    let mut i: usize = 0;
    while i < positions.len()
        invariant
            i <= positions@.len(),
            r@.len() == i,
            forall|j: int| 0 <= j < i ==> r@[j].value == positions@[j],
        decreases positions@.len() - i,
    {
        r.push(HashedCoordinate { value: positions[i] });
        i = i + 1;
    }
    r
}

/// The payload of the first row that a lookup of `coord` found, or
/// `PartitionNotFound` with the coordinate of `coord` when it found none.
pub fn block_from_rows(coord: HashedCoordinate, rows: Vec<Vec<u8>>) -> (r: Result<
    Vec<u8>,
    WorldError,
>)
    ensures
        rows@.len() == 0 ==> r == Err::<Vec<u8>, WorldError>(
            WorldError::PartitionNotFound(spatial_of(coord.value as int)),
        ),
        rows@.len() > 0 ==> r == Ok::<Vec<u8>, WorldError>(rows@[0]),
{
    let mut rows = rows;
    if rows.len() == 0 {
        Err(WorldError::PartitionNotFound(coord.to_spatial()))
    } else {
        Ok(rows.remove(0))
    }
}

/// The positions of a sequence of addresses.
pub open spec fn positions_of(v: Seq<HashedCoordinate>) -> Seq<i64> {
    v.map_values(|c: HashedCoordinate| c.value)
}

/// A block store in one SQLite database.
pub struct SQLite3MapReader {
    db: Connection,
    journal: Ghost<Seq<Exchange>>,
}

impl SQLite3MapReader {
    /// Every exchange with the database so far, in order.
    pub closed spec fn sent(&self) -> Seq<Exchange> {
        self.journal@
    }

    fn send(&mut self, st: SqlStatement) -> (r: Result<usize, rusqlite::Error>)
        ensures
            final(self).sent() == old(self).sent().push(write_exchange(statement_view(st), r is Ok)),
    {
        let ghost v = statement_view(st);
        let r = execute(&self.db, st);
        self.journal = Ghost(self.journal@.push(write_exchange(v, r is Ok)));
        r
    }

    fn fetch_ints(&mut self, st: SqlStatement) -> (r: Result<Vec<i64>, rusqlite::Error>)
        ensures
            final(self).sent() == old(self).sent().push(
                Exchange {
                    statement: statement_view(st),
                    accepted: r is Ok,
                    rows: match r {
                        Ok(v) => int_rows(v@),
                        Err(_) => Seq::empty(),
                    },
                },
            ),
    {
        let ghost v = statement_view(st);
        let r = query_ints(&self.db, st);
        let ghost rows = if r is Ok {
            int_rows(r->Ok_0@)
        } else {
            Seq::empty()
        };
        self.journal = Ghost(
            self.journal@.push(Exchange { statement: v, accepted: r is Ok, rows }),
        );
        r
    }

    fn fetch_blobs(&mut self, st: SqlStatement) -> (r: Result<Vec<Vec<u8>>, rusqlite::Error>)
        ensures
            final(self).sent() == old(self).sent().push(
                Exchange {
                    statement: statement_view(st),
                    accepted: r is Ok,
                    rows: match r {
                        Ok(v) => blob_rows(v@),
                        Err(_) => Seq::empty(),
                    },
                },
            ),
    {
        let ghost v = statement_view(st);
        let r = query_blobs(&self.db, st);
        let ghost rows = if r is Ok {
            blob_rows(r->Ok_0@)
        } else {
            Seq::empty()
        };
        self.journal = Ghost(
            self.journal@.push(Exchange { statement: v, accepted: r is Ok, rows }),
        );
        r
    }

    /// Opens the block store in the database file at `file_path`.
    pub fn open_file(file_path: &str) -> (r: Result<SQLite3MapReader, WorldError>)
        ensures
            r matches Ok(s) ==> s.sent() == Seq::<Exchange>::empty(),
            r matches Err(e) ==> e is FileNotFound,
    {
        match open_path(file_path) {
            Ok(db) => Ok(SQLite3MapReader { db, journal: Ghost(Seq::empty()) }),
            Err(_) => Err(
                WorldError::FileNotFound(
                    String::from_str("Failed to open SQLite3 database file: ").concat(file_path),
                ),
            ),
        }
    }

    /// A new, empty block store in memory: the block table is created, and
    /// a refusal of that is a `DatabaseError`.
    pub fn open_memory() -> (r: Result<SQLite3MapReader, WorldError>)
        ensures
            r matches Ok(s) ==> s.sent() == seq![write_exchange(create_blocks_view(), true)],
            r matches Err(e) ==> e is FileNotFound || e is DatabaseError,
    {
        let db = match open_in_memory() {
            Ok(db) => db,
            Err(_) => {
                return Err(
                    WorldError::FileNotFound(
                        String::from_str("Failed to open SQLite3 database in memory"),
                    ),
                );
            },
        };
        let mut store = SQLite3MapReader { db, journal: Ghost(Seq::empty()) };
        match store.send(create_blocks_statement()) {
            Ok(_) => Ok(store),
            Err(_) => Err(database_error("Failed to create blocks table")),
        }
    }

    /// Whether a block is stored at `coord`: one count of the rows at
    /// `coord`, true when it is positive.
    pub fn block_exists(&mut self, coord: HashedCoordinate) -> (r: Result<bool, WorldError>)
        ensures
            final(self).sent().len() == old(self).sent().len() + 1,
            final(self).sent().drop_last() == old(self).sent(),
            final(self).sent().last().statement == count_block_view(coord),
            r is Ok <==> final(self).sent().last().accepted,
            r matches Ok(b) ==> exists|v: Seq<i64>|
                final(self).sent().last().rows == int_rows(v) && b == (v.len() > 0 && v[0] > 0),
            r matches Err(e) ==> e is DatabaseError,
    {
        match self.fetch_ints(count_block_statement(coord)) {
            Ok(counts) => {
                Ok(counts_any(&counts))
            },
            Err(_) => {
                Err(database_error("Failed to count blocks"))
            },
        }
    }

    /// Every stored address, in no particular order: the positions that one
    /// listing query returned.
    pub fn blocks(&mut self) -> (r: Result<Vec<HashedCoordinate>, WorldError>)
        ensures
            final(self).sent().len() == old(self).sent().len() + 1,
            final(self).sent().drop_last() == old(self).sent(),
            final(self).sent().last().statement == select_positions_view(),
            r is Ok <==> final(self).sent().last().accepted,
            r matches Ok(cs) ==> final(self).sent().last().rows == int_rows(positions_of(cs@)),
            r matches Err(e) ==> e is DatabaseError,
    {
        match self.fetch_ints(select_positions_statement()) {
            Ok(positions) => {
                let cs = coordinates_of(&positions);
                assert(positions_of(cs@) =~= positions@);
                Ok(cs)
            },
            Err(_) => {
                Err(database_error("Failed to query blocks"))
            },
        }
    }

    /// The payload stored at `coord`: the first row that one lookup of
    /// `coord` returned; `PartitionNotFound` when it returned none.
    pub fn get_block(&mut self, coord: HashedCoordinate) -> (r: Result<Vec<u8>, WorldError>)
        ensures
            final(self).sent().len() == old(self).sent().len() + 1,
            final(self).sent().drop_last() == old(self).sent(),
            final(self).sent().last().statement == select_block_view(coord),
            !final(self).sent().last().accepted ==> (r matches Err(e) && e is DatabaseError),
            final(self).sent().last().accepted && final(self).sent().last().rows.len() == 0 ==> r
                == Err::<Vec<u8>, WorldError>(
                WorldError::PartitionNotFound(spatial_of(coord.value as int)),
            ),
            r matches Ok(b) ==> final(self).sent().last().accepted
                && final(self).sent().last().rows.len() > 0
                && final(self).sent().last().rows[0] == seq![ParamView::Blob(b@)],
            final(self).sent().last().accepted && final(self).sent().last().rows.len() > 0
                ==> r is Ok,
    {
        match self.fetch_blobs(select_block_statement(coord)) {
            Ok(rows) => {
                let ghost rv = rows@;
                let r = block_from_rows(coord, rows);
                proof {
                    if rv.len() > 0 {
                        assert(blob_rows(rv)[0] == seq![ParamView::Blob(rv[0]@)]);
                    }
                }
                r
            },
            Err(_) => {
                Err(database_error("Failed to read block"))
            },
        }
    }

    /// Hands the insert of `data` at `coord` to the database; `Ok` exactly
    /// when the database accepted it. An address already present is
    /// refused by the table's key.
    pub fn set_block(&mut self, coord: HashedCoordinate, data: &Vec<u8>) -> (r: Result<
        (),
        WorldError,
    >)
        ensures
            final(self).sent() == old(self).sent().push(
                write_exchange(insert_block_view(coord, data@), r is Ok),
            ),
            r matches Err(e) ==> e is DatabaseError,
    {
        match self.send(insert_block_statement(coord, data)) {
            Ok(_) => Ok(()),
            Err(_) => Err(database_error("Failed to insert block")),
        }
    }

    /// Hands the delete of the row at `coord` to the database; `Ok` exactly
    /// when the database accepted it, whether or not a row was there.
    pub fn remove_block(&mut self, coord: HashedCoordinate) -> (r: Result<(), WorldError>)
        ensures
            final(self).sent() == old(self).sent().push(
                write_exchange(delete_block_view(coord), r is Ok),
            ),
            r matches Err(e) ==> e is DatabaseError,
    {
        match self.send(delete_block_statement(coord)) {
            Ok(_) => Ok(()),
            Err(_) => Err(database_error("Failed to delete block")),
        }
    }
}

} // verus!
