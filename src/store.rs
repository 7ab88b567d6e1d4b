//! The insert statements of the framework's small data-mapping layer: a
//! record that can name its columns and their placeholders is wrapped in a
//! `Snare` that writes the statement for its table.
use vstd::prelude::*;
use vstd::string::*;

verus! {

/// A record that can be inserted: it names its columns, and the placeholders
/// its values are bound to, each as a comma-separated list.
pub trait Ensnarable {
    fn insert_parts(&self) -> (String, String);
}

/// A record on its way into the table `table_name`, with the last statement
/// written for it.
pub struct Snare<T> {
    pub query: String,
    pub table_name: String,
    pub data: T,
}

/// `INSERT INTO <table> (<columns>) VALUES (<bindings>)`
pub open spec fn insert_statement(table: Seq<char>, columns: Seq<char>, bindings: Seq<char>) -> Seq<char> {
    "INSERT INTO "@ + table + " ("@ + columns + ") VALUES ("@ + bindings + ")"@
}

/// The statement that inserts `columns`, bound to `bindings`, into `table`.
pub fn insert_query(table: &str, columns: &str, bindings: &str) -> (r: String)
    ensures
        r@ == insert_statement(table@, columns@, bindings@),
{
    let mut r = String::from_str("INSERT INTO ");
    r.append(table);
    r.append(" (");
    r.append(columns);
    r.append(") VALUES (");
    r.append(bindings);
    r.append(")");
    r
}

impl<T: Ensnarable> Snare<T> {
    /// Writes the insert statement for the record, keeps it in `query`, and
    /// returns it. The columns and bindings are the record's own.
    pub fn insert(&mut self) -> (r: String)
        ensures
            final(self).table_name == old(self).table_name,
            final(self).data == old(self).data,
            r@ == final(self).query@,
            exists|columns: Seq<char>, bindings: Seq<char>|
                r@ == insert_statement(old(self).table_name@, columns, bindings),
    {
        let (columns, bindings) = self.data.insert_parts();
        let q = insert_query(self.table_name.as_str(), columns.as_str(), bindings.as_str());
        self.query = q.clone();
        q
    }
}

} // verus!
