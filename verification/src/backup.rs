//! Backups, restoration and re-keying: the decisions and the SQL they run.
use vstd::prelude::*;
use crate::text::{replace_char, replace_char_with};

verus! {

/// Path of the salt file beside a database: the path with `.salt` appended.
pub fn salt_path_for(db_path: &str) -> (r: String)
    ensures
        r@ == db_path@ + ".salt"@,
{
    let mut s = String::from_str(db_path);
    s.append(".salt");
    s
}

/// `VACUUM INTO '<dest>'`, single quotes of the path doubled.
pub open spec fn vacuum_into_text(dest: Seq<char>) -> Seq<char> {
    "VACUUM INTO '"@ + replace_char(dest, '\'', "''"@) + "'"@
}

/// The statement that copies the open database, encrypted with the same
/// key, to `dest`.
pub fn vacuum_into_sql(dest: &str) -> (r: String)
    ensures
        r@ == vacuum_into_text(dest@),
{
    let escaped = replace_char_with(dest, '\'', "''");
    let mut s = String::from_str("VACUUM INTO '");
    s.append(escaped.as_str());
    s.append("'");
    s
}

/// The statement that compacts the database in place.
pub const VACUUM_IN_PLACE_SQL: &'static str = "PRAGMA wal_checkpoint(TRUNCATE); VACUUM;";

/// Outcome of the checks that precede a restoration.
#[derive(Debug, Clone, Copy, PartialEq, Eq, Structural)]
pub enum RestoreCheck {
    Proceed,
    SourceMissing,
    SaltMissing,
    DestinationExists,
}

/// Checks a restoration, in order: the source must exist, then its salt,
/// then the destination must not exist unless `force` is set.
pub fn restore_check(source_exists: bool, salt_exists: bool, dest_exists: bool, force: bool) -> (r:
    RestoreCheck)
    ensures
        r == (if !source_exists {
            RestoreCheck::SourceMissing
        } else if !salt_exists {
            RestoreCheck::SaltMissing
        } else if dest_exists && !force {
            RestoreCheck::DestinationExists
        } else {
            RestoreCheck::Proceed
        }),
{
    if !source_exists {
        RestoreCheck::SourceMissing
    } else if !salt_exists {
        RestoreCheck::SaltMissing
    } else if dest_exists && !force {
        RestoreCheck::DestinationExists
    } else {
        RestoreCheck::Proceed
    }
}

/// The 16 bytes that open an unencrypted SQLite file: `SQLite format 3`
/// and a NUL byte.
pub open spec fn sqlite_magic() -> Seq<u8> {
    seq![
        0x53u8, 0x51u8, 0x4cu8, 0x69u8, 0x74u8, 0x65u8, 0x20u8, 0x66u8,
        0x6fu8, 0x72u8, 0x6du8, 0x61u8, 0x74u8, 0x20u8, 0x33u8, 0x00u8,
    ]
}

/// Whether a database file is stored in clear: its first 16 bytes are the
/// SQLite header (an encrypted file starts with random-looking bytes).
pub fn is_plain_sqlite(bytes: &[u8]) -> (r: bool)
    ensures
        r == (bytes@.len() >= 16 && bytes@.take(16) == sqlite_magic()),
{
    let magic: [u8; 16] = [
        0x53, 0x51, 0x4c, 0x69, 0x74, 0x65, 0x20, 0x66, 0x6f, 0x72, 0x6d, 0x61, 0x74, 0x20, 0x33,
        0x00,
    ];
    assert(magic@ =~= sqlite_magic());
    if bytes.len() < 16 {
        return false;
    }
    let mut i: usize = 0;
    while i < 16
        invariant
            i <= 16 <= bytes@.len(),
            magic@ == sqlite_magic(),
            bytes@.take(i as int) == magic@.take(i as int),
        decreases 16 - i,
    {
        if bytes[i] != magic[i] {
            assert(bytes@.take(16)[i as int] != sqlite_magic()[i as int]);
            return false;
        }
        assert(bytes@.take(i + 1) =~= magic@.take(i + 1));
        i = i + 1;
    }
    assert(magic@.take(16) =~= magic@);
    true
}

} // verus!
