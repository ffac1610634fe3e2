//! A database connection whose state says whether it is connected.
use vstd::prelude::*;
use core::marker::PhantomData;

verus! {

/// State: not connected.
pub struct Disconnected;

/// State: connected.
pub struct Connected;

/// A database connection; queries are only offered on a connected one.
pub struct Connection<S> {
    connection_string: String,
    _state: PhantomData<S>,
}

impl<S> Connection<S> {
    /// Where the connection goes.
    pub closed spec fn target(&self) -> Seq<char> {
        self.connection_string@
    }
}

impl Connection<Disconnected> {
    /// A connection to `connection_string`, not yet made.
    pub fn new(connection_string: String) -> (res: Self)
        ensures
            res.target() == connection_string@,
    {
        Connection { connection_string, _state: PhantomData }
    }

    /// Connects; refused for an empty connection string.
    pub fn connect(self) -> (res: Result<Connection<Connected>, String>)
        ensures
            self.target().len() == 0 <==> res is Err,
            res matches Ok(c) ==> c.target() == self.target(),
            res matches Err(e) ==> e@ == "Invalid connection string"@,
    {
        if self.connection_string.as_str().is_empty() {
            return Err(String::from_str("Invalid connection string"));
        }
        Ok(Connection { connection_string: self.connection_string, _state: PhantomData })
    }
}

impl Connection<Connected> {
    /// Runs a query; this example answers with two fixed rows.
    pub fn query(&self, sql: &str) -> (res: Vec<String>)
        ensures
            res@.len() == 2,
            res@[0]@ == "result1"@,
            res@[1]@ == "result2"@,
    {
        let mut rows: Vec<String> = Vec::new();
        rows.push(String::from_str("result1"));
        rows.push(String::from_str("result2"));
        rows
    }

    /// Begins a transaction on the connection, which it holds until the
    /// transaction is committed or rolled back.
    pub fn begin_transaction(&mut self) -> (res: Transaction<'_>)
        ensures
            res.connection() == *old(self),
    {
        Transaction { conn: self }
    }

    /// Disconnects.
    pub fn disconnect(self) -> (res: Connection<Disconnected>)
        ensures
            res.target() == self.target(),
    {
        Connection { connection_string: self.connection_string, _state: PhantomData }
    }
}

/// A transaction, which must be committed or rolled back: it holds its
/// connection until it is consumed.
pub struct Transaction<'a> {
    conn: &'a mut Connection<Connected>,
}

impl<'a> Transaction<'a> {
    /// The connection the transaction runs on.
    pub closed spec fn connection(&self) -> Connection<Connected> {
        *self.conn
    }

    /// Commits the transaction, consuming it.
    pub fn commit(self) {
    }

    /// Rolls the transaction back, consuming it.
    pub fn rollback(self) {
    }
}

} // verus!
