//! The table function through which a query invokes a truncation.
use vstd::prelude::*;
use vstd::string::StringExecFns;
use crate::model::GcError;

verus! {

/// The name under which the table function is registered.
pub const FUSE_FUNC_TRUNCATE: &'static str = "fuse_truncate_history";

/// How the table function presents itself to the host engine.
pub struct TableInfo {
    pub table_id: u64,
    pub version: u64,
    /// `'<database>'.'<function name>'`.
    pub desc: String,
    pub name: String,
    pub engine: String,
    /// The output columns, each a non-null unsigned 64-bit integer.
    pub schema: Vec<String>,
}

/// The `fuse_truncate_history(<database>, <table>)` table function.
pub struct FuseTruncateHistory {
    pub table_info: TableInfo,
    pub arg_database_name: String,
    pub arg_table_name: String,
}

/// The arguments hold exactly a database name and a table name.
pub open spec fn two_args(table_args: Option<Vec<String>>) -> bool {
    table_args matches Some(a) && a.len() == 2
}

/// The output columns, in order.
pub open spec fn output_columns() -> Seq<Seq<char>> {
    seq!["snapshot_removed"@, "segment_removed"@, "block_removed"@]
}

/// The description of a table function named `name` in database `db`.
pub open spec fn quoted_desc(db: Seq<char>, name: Seq<char>) -> Seq<char> {
    "'"@ + db + "'.'"@ + name + "'"@
}

impl FuseTruncateHistory {
    /// The table function for `table_args`, which must be the names of a
    /// database and of a table in it.
    pub fn create(
        database_name: &str,
        table_func_name: &str,
        table_id: u64,
        table_args: Option<Vec<String>>,
    ) -> (r: Result<FuseTruncateHistory, GcError>)
        ensures
            two_args(table_args) ==> (r matches Ok(f) && f.arg_database_name
                == table_args->Some_0@[0] && f.arg_table_name == table_args->Some_0@[1]
                && f.table_info.table_id == table_id && f.table_info.version == 0
                && f.table_info.desc@ == quoted_desc(database_name@, table_func_name@)
                && f.table_info.name@ == table_func_name@ && f.table_info.engine@
                == FUSE_FUNC_TRUNCATE@ && f.table_info.schema@.map_values(|c: String| c@)
                == output_columns()),
            !two_args(table_args) ==> (r matches Err(e) && e is BadArguments),
    {
        let args = match table_args {
            Some(a) => a,
            None => {
                return Err(
                    GcError::BadArguments(
                        String::from_str("expecting database and table name (as two string literals)"),
                    ),
                );
            },
        };
        if args.len() != 2 {
            return Err(
                GcError::BadArguments(
                    String::from_str("expecting database and table name (as two string literals)"),
                ),
            );
        }
        let arg_database_name = args[0].clone();
        let arg_table_name = args[1].clone();
        let mut schema: Vec<String> = Vec::new();
        schema.push(String::from_str("snapshot_removed"));
        schema.push(String::from_str("segment_removed"));
        schema.push(String::from_str("block_removed"));
        let mut desc = String::from_str("'");
        desc.append(database_name);
        desc.append("'.'");
        desc.append(table_func_name);
        desc.append("'");
        let table_info = TableInfo {
            table_id,
            version: 0,
            desc,
            name: String::from_str(table_func_name),
            engine: String::from_str(FUSE_FUNC_TRUNCATE),
            schema,
        };
        assert(table_info.schema@.map_values(|c: String| c@) =~= output_columns());
        Ok(FuseTruncateHistory { table_info, arg_database_name, arg_table_name })
    }

    /// The arguments the function was invoked with: the database name, then
    /// the table name.
    pub fn table_args(&self) -> (r: Vec<String>)
        ensures
            r@ == seq![self.arg_database_name, self.arg_table_name],
    {
        let mut r: Vec<String> = Vec::new();
        r.push(self.arg_database_name.clone());
        r.push(self.arg_table_name.clone());
        r
    }

    /// The name the function was invoked under.
    pub fn function_name(&self) -> (r: &str)
        ensures
            r@ == self.table_info.name@,
    {
        self.table_info.name.as_str()
    }
}

} // verus!
