//! What to do when the tables cannot be created at startup.
//!
//! The tables are created before the service listens. While the store
//! cannot be reached the attempt is made again after a fixed pause, a
//! bounded number of times; then the service gives up.

use vstd::prelude::*;

verus! {

/// How many attempts are made before the service gives up.
pub const MAX_ATTEMPTS: u32 = 10;

/// How many seconds pass between two attempts.
pub const RETRY_PAUSE_SECS: u64 = 2;

/// What follows a failed attempt.
#[derive(Debug, Clone, Copy, PartialEq, Eq, Structural)]
pub enum Retry {
    /// Wait this many seconds and try again.
    After(u64),
    /// Give up: the service does not start.
    GiveUp,
}

/// What follows the failed attempt number `failed` (counted from 1): another
/// attempt after the pause, until the last attempt has failed.
pub open spec fn retry_after(failed: u32) -> Retry {
    if failed >= MAX_ATTEMPTS {
        Retry::GiveUp
    } else {
        Retry::After(RETRY_PAUSE_SECS)
    }
}

/// Decides what follows the failed attempt number `failed`, counted from 1.
pub fn next_attempt(failed: u32) -> (retry: Retry)
    ensures
        retry == retry_after(failed),
{
    if failed >= MAX_ATTEMPTS {
        Retry::GiveUp
    } else {
        Retry::After(RETRY_PAUSE_SECS)
    }
}

/// The statements that create the tables, each only if it is not there yet:
/// one table per entity, with a key that the store assigns and one text
/// column per field.
pub open spec fn schema() -> Seq<char> {
    "CREATE TABLE IF NOT EXISTS users (id SERIAL PRIMARY KEY, name VARCHAR NOT NULL, email VARCHAR NOT NULL, password VARCHAR NOT NULL); CREATE TABLE IF NOT EXISTS mapel (id SERIAL PRIMARY KEY, mapel VARCHAR NOT NULL); CREATE TABLE IF NOT EXISTS guru (id SERIAL PRIMARY KEY, name VARCHAR NOT NULL, nomor_telefon VARCHAR NOT NULL);"@
}

/// The statements that create the tables.
pub fn schema_sql() -> (sql: &'static str)
    ensures
        sql@ == schema(),
{
    "CREATE TABLE IF NOT EXISTS users (id SERIAL PRIMARY KEY, name VARCHAR NOT NULL, email VARCHAR NOT NULL, password VARCHAR NOT NULL); CREATE TABLE IF NOT EXISTS mapel (id SERIAL PRIMARY KEY, mapel VARCHAR NOT NULL); CREATE TABLE IF NOT EXISTS guru (id SERIAL PRIMARY KEY, name VARCHAR NOT NULL, nomor_telefon VARCHAR NOT NULL);"
}

} // verus!
