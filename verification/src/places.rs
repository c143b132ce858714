//! Where the daemon, its clients and the configuration keep their files.

use vstd::prelude::*;
use vstd::string::*;

use crate::paths;
use crate::text;

verus! {

/// `dir`, or the current directory where there is none.
pub open spec fn or_here(dir: Option<Seq<char>>) -> Seq<char> {
    match dir {
        Some(d) => d,
        None => "."@,
    }
}

/// `dir`, or the current directory where there is none.
pub fn dir_or_here(dir: Option<String>) -> (r: String)
    ensures
        r@ == or_here(text::text_opt(dir)),
{
    match dir {
        Some(d) => d,
        None => ".".to_owned(),
    }
}

/// The file `name` among the data of this program, where local data is kept in `data`.
pub open spec fn data_file(data: Option<Seq<char>>, name: Seq<char>) -> Seq<char> {
    paths::joined_path(paths::joined_path(or_here(data), "shard"@), name)
}

/// The file `name` among the data of this program, where local data is kept in `data`.
pub fn data_file_in(data: Option<String>, name: &str) -> (r: String)
    ensures
        r@ == data_file(text::text_opt(data), name@),
{
    paths::join_path(paths::join_path(dir_or_here(data).as_str(), "shard").as_str(), name)
}

/// The socket and the database are different files.
pub proof fn law_socket_and_database_are_apart(data: Option<Seq<char>>)
    ensures
        data_file(data, "shard.sock"@) != data_file(data, "shard.db"@),
{
    reveal_strlit("shard.sock");
    reveal_strlit("shard.db");
    assert("shard.sock"@[0] == 's' && "shard.db"@[0] == 's');
    assert(data_file(data, "shard.sock"@).len() != data_file(data, "shard.db"@).len());
}

/// Data files lie in the directory `shard` of the data directory, under their own names; without a
/// data directory, in that of the current one.
pub proof fn law_data_files_lie_together(data: Seq<char>, name: Seq<char>)
    requires
        data.len() > 0,
        data.last() != '/',
        name.len() > 0,
        name[0] != '/',
    ensures
        data_file(Some(data), name) == data + "/shard/"@ + name,
        data_file(None, name) == "./shard/"@ + name,
{
    reveal_strlit("shard");
    reveal_strlit("/shard/");
    reveal_strlit(".");
    reveal_strlit("./shard/");
    assert("shard"@[0] == 's' && "shard"@.last() == 'd');
    assert("."@.last() == '.');
    assert(data_file(Some(data), name) =~= data + "/shard/"@ + name);
    assert(data_file(None, name) =~= "./shard/"@ + name);
}

} // verus!
