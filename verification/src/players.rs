//! Players that the server lets in, and those that may command it.

use vstd::prelude::*;

verus! {

/// A player on the whitelist.
#[derive(Debug)]
pub struct WhitelistEntry {
    pub uuid: String,
    pub name: String,
}

/// A [`WhitelistEntry`] as text.
pub struct PlayerView {
    pub uuid: Seq<char>,
    pub name: Seq<char>,
}

impl View for WhitelistEntry {
    type V = PlayerView;

    open spec fn view(&self) -> PlayerView {
        PlayerView { uuid: self.uuid@, name: self.name@ }
    }
}

/// A player that may command the server.
#[derive(Debug)]
pub struct OpEntry {
    pub uuid: String,
    pub name: String,
    pub level: u8,
    pub bypasses_player_limit: bool,
}

/// An [`OpEntry`] as text.
pub struct OpView {
    pub uuid: Seq<char>,
    pub name: Seq<char>,
    pub level: u8,
    pub bypasses_player_limit: bool,
}

impl View for OpEntry {
    type V = OpView;

    open spec fn view(&self) -> OpView {
        OpView {
            uuid: self.uuid@,
            name: self.name@,
            level: self.level,
            bypasses_player_limit: self.bypasses_player_limit,
        }
    }
}

/// The players of a whitelist.
pub open spec fn players(list: Seq<WhitelistEntry>) -> Seq<PlayerView> {
    list.map_values(|e: WhitelistEntry| e@)
}

/// The players of an operator list.
pub open spec fn operators(list: Seq<OpEntry>) -> Seq<OpView> {
    list.map_values(|e: OpEntry| e@)
}

/// `name` is on the whitelist.
pub open spec fn is_listed(list: Seq<PlayerView>, name: Seq<char>) -> bool {
    exists|i: int| 0 <= i < list.len() && (#[trigger] list[i]).name == name
}

/// `name` is among the operators.
pub open spec fn is_operator(list: Seq<OpView>, name: Seq<char>) -> bool {
    exists|i: int| 0 <= i < list.len() && (#[trigger] list[i]).name == name
}

// ---------- Files ----------

/// What came of reading one of the server's player files.
pub enum ListFile<T> {
    /// There is no such file.
    Missing,
    /// It could not be read, for this reason.
    Unreadable(String),
    /// It was read, and is not a list of players.
    Malformed,
    /// It holds these players.
    Entries(Vec<T>),
}

/// The players that a file holds: none where it says nothing of use.
pub open spec fn file_entries<T>(file: ListFile<T>) -> Seq<T> {
    match file {
        ListFile::Entries(list) => list@,
        _ => Seq::empty(),
    }
}

/// The players of a file, or why it could not be read. A file that is missing
/// or malformed holds none.
fn read_entries<T>(file: ListFile<T>) -> (r: Result<Vec<T>, String>)
    ensures
        match r {
            Ok(list) => !(file is Unreadable) && list@ == file_entries(file),
            Err(why) => file == ListFile::<T>::Unreadable(why),
        },
{
    match file {
        ListFile::Missing => Ok(Vec::new()),
        ListFile::Unreadable(why) => Err(why),
        ListFile::Malformed => Ok(Vec::new()),
        ListFile::Entries(list) => Ok(list),
    }
}

/// The whitelist in a file, or why the file could not be read. A file that is
/// missing or malformed holds nobody.
pub fn read_whitelist(file: ListFile<WhitelistEntry>) -> (r: Result<Vec<WhitelistEntry>, String>)
    ensures
        match r {
            Ok(list) => !(file is Unreadable) && list@ == file_entries(file),
            Err(why) => file == ListFile::<WhitelistEntry>::Unreadable(why),
        },
{
    read_entries(file)
}

/// The operators in a file, or why the file could not be read. A file that is
/// missing or malformed holds nobody.
pub fn read_ops(file: ListFile<OpEntry>) -> (r: Result<Vec<OpEntry>, String>)
    ensures
        match r {
            Ok(list) => !(file is Unreadable) && list@ == file_entries(file),
            Err(why) => file == ListFile::<OpEntry>::Unreadable(why),
        },
{
    read_entries(file)
}

} // verus!
