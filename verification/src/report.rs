//! What the agent sends to the inventory server.
use vstd::prelude::*;

use crate::clock::{current_date, date_text, valid_local_time, LocalTime};
use crate::strings::{lowercase, string_from_chars, to_lowercase};
use crate::text::{chars_of, spec_trim, trim};

verus! {

/// The inventory of one computer.
pub struct Infos {
    pub nome: String,
    pub usuario: String,
    pub servicetag: String,
    pub modelo: String,
    pub versao: String,
    pub windows: String,
    pub ip: String,
    pub disco: String,
    pub processador: String,
    pub ram: String,
    pub monitor: String,
    pub snmonitor: String,
    pub time: String,
    pub programs: Vec<String>,
}

/// The time spent on one page, as the agent sends it.
pub struct PageRecord {
    pub page: String,
    pub date: String,
    pub elapsed_ns: u64,
}

/// The record of `elapsed_ns` nanoseconds spent on the page `window_title` on the date of
/// `now`: the title and the date, trimmed.
pub fn page_record(window_title: &str, now: &LocalTime, elapsed_ns: u64) -> (r: PageRecord)
    requires
        valid_local_time(*now),
    ensures
        r.page@ == spec_trim(window_title@),
        r.date@ == spec_trim(date_text(*now)),
        r.elapsed_ns == elapsed_ns,
{
    let title = chars_of(window_title);
    let page = trim(title.as_slice());
    let date = current_date(now);
    let date_chars = chars_of(date.as_str());
    let date_trimmed = trim(date_chars.as_slice());
    PageRecord {
        page: string_from_chars(page.as_slice()),
        date: string_from_chars(date_trimmed.as_slice()),
        elapsed_ns,
    }
}

/// The user whose computer is left out of the inventory database.
pub open spec fn skipped_user() -> Seq<char> {
    "candeias"@
}

/// What the inventory database does with a computer's inventory.
#[derive(Debug, PartialEq, Eq, Structural)]
pub enum InventoryWrite {
    /// Leave it out.
    Skip,
    /// Replace the document that holds the same service tag.
    Update,
    /// Add a new document.
    Insert,
}

/// What is done with the inventory of `username`'s computer, given whether a
/// document with its service tag exists: nothing for the user left out,
/// otherwise an update of that document, or a new one.
pub open spec fn inventory_write_spec(username: Seq<char>, exists: bool) -> InventoryWrite {
    if lowercase(username) == skipped_user() {
        InventoryWrite::Skip
    } else if exists {
        InventoryWrite::Update
    } else {
        InventoryWrite::Insert
    }
}

/// Decides what the inventory database does with the inventory of
/// `username`'s computer. Whether a document exists matters only when the
/// user is not left out, and is looked up only then.
pub fn inventory_write(username: &str, exists: bool) -> (w: InventoryWrite)
    ensures
        w == inventory_write_spec(username@, exists),
{
    if is_skipped_user(username) {
        InventoryWrite::Skip
    } else if exists {
        InventoryWrite::Update
    } else {
        InventoryWrite::Insert
    }
}

/// Whether the inventory of `username`'s computer is left out of the database:
/// when the name in lowercase is `candeias`.
pub fn is_skipped_user(username: &str) -> (skip: bool)
    ensures
        skip == (lowercase(username@) == skipped_user()),
{
    let lower = to_lowercase(username);
    let target = "candeias".to_owned();
    lower == target
}

} // verus!
