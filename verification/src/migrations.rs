//! Migrations of the schema: in one direction, one after the other, and each
//! known by its digest.

use vstd::prelude::*;
use vstd::string::*;

use crate::json;
use crate::json::sha256_hex;
use crate::text;
use crate::text::{append_decimal, quoted, same_text, signed_decimal_text};

verus! {

/// A migration.
#[derive(Clone, Copy, Debug, PartialEq, Eq)]
pub struct Migration {
    version: u32,
    name: &'static str,
    sql: &'static str,
}

/// What a [`Migration`] is, over mathematical texts.
pub struct Step {
    pub version: u32,
    pub name: Seq<char>,
    pub sql: Seq<char>,
}

impl View for Migration {
    type V = Step;

    closed spec fn view(&self) -> Step {
        Step { version: self.version, name: self.name@, sql: self.sql@ }
    }
}

impl Migration {
    /// A migration. In a [`Migrator`] the versions count up from one.
    pub fn new(version: u32, name: &'static str, sql: &'static str) -> (r: Migration)
        ensures
            r@ == (Step { version, name: name@, sql: sql@ }),
    {
        Migration { version, name, sql }
    }

    pub fn version(&self) -> (r: u32)
        ensures
            r == self@.version,
    {
        self.version
    }

    pub fn name(&self) -> (r: &'static str)
        ensures
            r@ == self@.name,
    {
        self.name
    }

    pub fn sql(&self) -> (r: &'static str)
        ensures
            r@ == self@.sql,
    {
        self.sql
    }

    /// The digest of the migration, in lower-case hexadecimal.
    pub fn checksum(&self) -> (r: String)
        ensures
            r@ == json::text_digest(self@.sql),
    {
        sha256_hex(self.sql)
    }
}

/// Why the schema cannot be brought up to date.
#[derive(Debug)]
pub enum MigrationError {
    InvalidSequence { expected: u32, found: u32 },
    InvalidAppliedSequence { expected: u32, found: u32 },
    DatabaseAhead { applied: u32, available: u32 },
    InvalidStoredVersion { found: i64 },
    UserVersionMismatch { expected: u32, actual: i64 },
    NameMismatch { version: u32, expected: &'static str, actual: String },
    ChecksumMismatch { version: u32, name: &'static str },
    TimeBeforeUnixEpoch,
    TimestampOverflow,
    TooManyMigrations,
    Database(String),
}

/// What a [`MigrationError`] says, over mathematical texts.
pub enum MigrationFault {
    InvalidSequence { expected: int, found: int },
    InvalidAppliedSequence { expected: int, found: int },
    DatabaseAhead { applied: int, available: int },
    InvalidStoredVersion { found: int },
    UserVersionMismatch { expected: int, actual: int },
    NameMismatch { version: int, expected: Seq<char>, actual: Seq<char> },
    ChecksumMismatch { version: int, name: Seq<char> },
    TimeBeforeUnixEpoch,
    TimestampOverflow,
    TooManyMigrations,
    Database(Seq<char>),
}

impl View for MigrationError {
    type V = MigrationFault;

    open spec fn view(&self) -> MigrationFault {
        match self {
            MigrationError::InvalidSequence { expected, found } => {
                MigrationFault::InvalidSequence {
                    expected: *expected as int,
                    found: *found as int,
                }
            },
            MigrationError::InvalidAppliedSequence { expected, found } => {
                MigrationFault::InvalidAppliedSequence {
                    expected: *expected as int,
                    found: *found as int,
                }
            },
            MigrationError::DatabaseAhead { applied, available } => {
                MigrationFault::DatabaseAhead {
                    applied: *applied as int,
                    available: *available as int,
                }
            },
            MigrationError::InvalidStoredVersion { found } => {
                MigrationFault::InvalidStoredVersion { found: *found as int }
            },
            MigrationError::UserVersionMismatch { expected, actual } => {
                MigrationFault::UserVersionMismatch {
                    expected: *expected as int,
                    actual: *actual as int,
                }
            },
            MigrationError::NameMismatch { version, expected, actual } => {
                MigrationFault::NameMismatch {
                    version: *version as int,
                    expected: expected@,
                    actual: actual@,
                }
            },
            MigrationError::ChecksumMismatch { version, name } => {
                MigrationFault::ChecksumMismatch { version: *version as int, name: name@ }
            },
            MigrationError::TimeBeforeUnixEpoch => MigrationFault::TimeBeforeUnixEpoch,
            MigrationError::TimestampOverflow => MigrationFault::TimestampOverflow,
            MigrationError::TooManyMigrations => MigrationFault::TooManyMigrations,
            MigrationError::Database(text) => MigrationFault::Database(text@),
        }
    }
}

/// The sentence in which an error is reported.
pub open spec fn migration_message(fault: MigrationFault) -> Seq<char> {
    match fault {
        MigrationFault::InvalidSequence { expected, found } => {
            "migration versions must be consecutive from 1: expected "@ + text::decimal(
                expected as nat,
            ) + ", found "@ + text::decimal(found as nat)
        },
        MigrationFault::InvalidAppliedSequence { expected, found } => {
            "applied migration versions must be consecutive from 1: expected "@ + text::decimal(
                expected as nat,
            ) + ", found "@ + text::decimal(found as nat)
        },
        MigrationFault::DatabaseAhead { applied, available } => "database migration version "@
            + text::decimal(applied as nat) + " is newer than available version "@ + text::decimal(
            available as nat,
        ),
        MigrationFault::InvalidStoredVersion { found } => "stored migration version "@
            + text::signed_decimal(found) + " is outside the supported u32 range"@,
        MigrationFault::UserVersionMismatch { expected, actual } => {
            "PRAGMA user_version mismatch: schema_migrations expects "@ + text::decimal(
                expected as nat,
            ) + ", database contains "@ + text::signed_decimal(actual)
        },
        MigrationFault::NameMismatch { version, expected, actual } => "migration "@
            + text::decimal(version as nat) + " name mismatch: expected "@ + text::debug_text(
            expected,
        ) + ", database contains "@ + text::debug_text(actual),
        MigrationFault::ChecksumMismatch { version, name } => "migration "@ + text::decimal(
            version as nat,
        ) + " ("@ + name + ") checksum mismatch"@,
        MigrationFault::TimeBeforeUnixEpoch => "system time is before the Unix epoch"@,
        MigrationFault::TimestampOverflow => {
            "current Unix timestamp does not fit in SQLite INTEGER"@
        },
        MigrationFault::TooManyMigrations => {
            "migration list is too large to represent with u32 versions"@
        },
        MigrationFault::Database(text) => text,
    }
}

impl MigrationError {
    /// The sentence in which the error is reported.
    pub fn message(&self) -> (r: String)
        ensures
            r@ == migration_message(self@),
    {
        match self {
            MigrationError::InvalidSequence { expected, found } => {
                let mut out =
                    "migration versions must be consecutive from 1: expected ".to_owned();
                append_decimal(&mut out, *expected as u64);
                out.append(", found ");
                append_decimal(&mut out, *found as u64);
                out
            },
            MigrationError::InvalidAppliedSequence { expected, found } => {
                let mut out =
                    "applied migration versions must be consecutive from 1: expected ".to_owned();
                append_decimal(&mut out, *expected as u64);
                out.append(", found ");
                append_decimal(&mut out, *found as u64);
                out
            },
            MigrationError::DatabaseAhead { applied, available } => {
                let mut out = "database migration version ".to_owned();
                append_decimal(&mut out, *applied as u64);
                out.append(" is newer than available version ");
                append_decimal(&mut out, *available as u64);
                out
            },
            MigrationError::InvalidStoredVersion { found } => {
                let mut out = "stored migration version ".to_owned();
                out.append(signed_decimal_text(*found).as_str());
                out.append(" is outside the supported u32 range");
                out
            },
            MigrationError::UserVersionMismatch { expected, actual } => {
                let mut out =
                    "PRAGMA user_version mismatch: schema_migrations expects ".to_owned();
                append_decimal(&mut out, *expected as u64);
                out.append(", database contains ");
                out.append(signed_decimal_text(*actual).as_str());
                out
            },
            MigrationError::NameMismatch { version, expected, actual } => {
                let mut out = "migration ".to_owned();
                append_decimal(&mut out, *version as u64);
                out.append(" name mismatch: expected ");
                out.append(quoted(expected).as_str());
                out.append(", database contains ");
                out.append(quoted(actual.as_str()).as_str());
                out
            },
            MigrationError::ChecksumMismatch { version, name } => {
                let mut out = "migration ".to_owned();
                append_decimal(&mut out, *version as u64);
                out.append(" (");
                out.append(name);
                out.append(") checksum mismatch");
                out
            },
            MigrationError::TimeBeforeUnixEpoch => {
                "system time is before the Unix epoch".to_owned()
            },
            MigrationError::TimestampOverflow => {
                "current Unix timestamp does not fit in SQLite INTEGER".to_owned()
            },
            MigrationError::TooManyMigrations => {
                "migration list is too large to represent with u32 versions".to_owned()
            },
            MigrationError::Database(text) => text.clone(),
        }
    }
}

/// The fault that a result carries, if it is an error.
pub open spec fn migration_fault<T>(result: Result<T, MigrationError>) -> Option<MigrationFault> {
    match result {
        Ok(_) => None,
        Err(error) => Some(error@),
    }
}

/// The version that belongs at a place, if versions reach that far.
pub open spec fn version_at(place: int) -> Option<int> {
    if place < u32::MAX {
        Some(place + 1)
    } else {
        None
    }
}

fn expected_version(place: usize) -> (r: Result<u32, MigrationError>)
    ensures
        match version_at(place as int) {
            Some(version) => r matches Ok(expected) && expected == version,
            None => r matches Err(error) && error@ is TooManyMigrations,
        },
{
    if place as u64 >= u32::MAX as u64 {
        Err(MigrationError::TooManyMigrations)
    } else {
        Ok(place as u32 + 1)
    }
}

/// What is wrong with a list of migrations: its versions are not one, two and
/// so on.
pub open spec fn sequence_fault(migrations: Seq<Migration>) -> Option<MigrationFault>
    decreases migrations.len(),
{
    if migrations.len() == 0 {
        None
    } else {
        let before = sequence_fault(migrations.drop_last());
        if before is Some {
            before
        } else {
            match version_at(migrations.len() - 1) {
                None => Some(MigrationFault::TooManyMigrations),
                Some(expected) => if migrations.last()@.version != expected {
                    Some(
                        MigrationFault::InvalidSequence {
                            expected,
                            found: migrations.last()@.version as int,
                        },
                    )
                } else {
                    None
                },
            }
        }
    }
}

proof fn sequence_fault_of_prefix(migrations: Seq<Migration>, n: int)
    requires
        0 <= n <= migrations.len(),
        sequence_fault(migrations.take(n)) is Some,
    ensures
        sequence_fault(migrations) == sequence_fault(migrations.take(n)),
    decreases migrations.len(),
{
    if n < migrations.len() {
        assert(migrations.drop_last().take(n) =~= migrations.take(n));
        sequence_fault_of_prefix(migrations.drop_last(), n);
    } else {
        assert(migrations.take(n) =~= migrations);
    }
}

/// The versions of accepted migrations count up from one.
pub proof fn versions_count_up(migrations: Seq<Migration>)
    requires
        sequence_fault(migrations) is None,
    ensures
        migrations.len() <= u32::MAX,
        forall|i: int| 0 <= i < migrations.len() ==> (#[trigger] migrations[i])@.version == i + 1,
    decreases migrations.len(),
{
    if migrations.len() > 0 {
        versions_count_up(migrations.drop_last());
        assert forall|i: int| 0 <= i < migrations.len() implies (
        #[trigger] migrations[i])@.version == i + 1 by {
            if i < migrations.len() - 1 {
                assert(migrations.drop_last()[i] == migrations[i]);
            }
        }
    }
}

/// A migration that was applied, as the database remembers it.
#[derive(Debug)]
pub struct AppliedMigration {
    pub version: u32,
    pub name: String,
    pub checksum: String,
}

/// Reads a migration that was applied.
pub fn applied_migration_from_row(version: i64, name: String, checksum: String) -> (r: Result<
    AppliedMigration,
    MigrationError,
>)
    ensures
        migration_fault(r) == (if 0 <= version <= u32::MAX {
            None
        } else {
            Some(MigrationFault::InvalidStoredVersion { found: version as int })
        }),
        r matches Ok(applied) ==> applied.version == version && applied.name == name
            && applied.checksum == checksum,
{
    if version < 0 || version > u32::MAX as i64 {
        return Err(MigrationError::InvalidStoredVersion { found: version });
    }
    Ok(AppliedMigration { version: version as u32, name, checksum })
}

/// What is wrong with one migration that was applied.
pub open spec fn applied_fault(
    migrations: Seq<Migration>,
    place: int,
    record: AppliedMigration,
) -> Option<MigrationFault> {
    match version_at(place) {
        None => Some(MigrationFault::TooManyMigrations),
        Some(expected) => if record.version != expected {
            Some(
                MigrationFault::InvalidAppliedSequence {
                    expected,
                    found: record.version as int,
                },
            )
        } else if place >= migrations.len() {
            Some(
                MigrationFault::DatabaseAhead {
                    applied: record.version as int,
                    available: if migrations.len() == 0 {
                        0
                    } else {
                        migrations.last()@.version as int
                    },
                },
            )
        } else {
            let migration = migrations[place]@;
            if record.name@ != migration.name {
                Some(
                    MigrationFault::NameMismatch {
                        version: migration.version as int,
                        expected: migration.name,
                        actual: record.name@,
                    },
                )
            } else if record.checksum@ != json::text_digest(migration.sql) {
                Some(
                    MigrationFault::ChecksumMismatch {
                        version: migration.version as int,
                        name: migration.name,
                    },
                )
            } else {
                None
            }
        },
    }
}

/// What is wrong with the migrations that were applied.
pub open spec fn history_fault(
    migrations: Seq<Migration>,
    applied: Seq<AppliedMigration>,
) -> Option<MigrationFault>
    decreases applied.len(),
{
    if applied.len() == 0 {
        None
    } else {
        let before = history_fault(migrations, applied.drop_last());
        if before is Some {
            before
        } else {
            applied_fault(migrations, applied.len() - 1, applied.last())
        }
    }
}

proof fn history_fault_of_prefix(
    migrations: Seq<Migration>,
    applied: Seq<AppliedMigration>,
    n: int,
)
    requires
        0 <= n <= applied.len(),
        history_fault(migrations, applied.take(n)) is Some,
    ensures
        history_fault(migrations, applied) == history_fault(migrations, applied.take(n)),
    decreases applied.len(),
{
    if n < applied.len() {
        assert(applied.drop_last().take(n) =~= applied.take(n));
        history_fault_of_prefix(migrations, applied.drop_last(), n);
    } else {
        assert(applied.take(n) =~= applied);
    }
}

proof fn history_is_within(migrations: Seq<Migration>, applied: Seq<AppliedMigration>)
    requires
        history_fault(migrations, applied) is None,
    ensures
        applied.len() <= migrations.len(),
    decreases applied.len(),
{
    if applied.len() > 0 {
        history_is_within(migrations, applied.drop_last());
    }
}

fn validate_applied_migration(
    migrations: &Vec<Migration>,
    place: usize,
    record: &AppliedMigration,
) -> (r: Result<(), MigrationError>)
    ensures
        migration_fault(r) == applied_fault(migrations@, place as int, *record),
{
    let expected: u32 = expected_version(place)?;
    if record.version != expected {
        return Err(
            MigrationError::InvalidAppliedSequence { expected, found: record.version },
        );
    }
    if place >= migrations.len() {
        let available: u32 = if migrations.len() == 0 {
            0
        } else {
            migrations[migrations.len() - 1].version()
        };
        return Err(MigrationError::DatabaseAhead { applied: record.version, available });
    }
    let migration = &migrations[place];
    if !same_text(record.name.as_str(), migration.name()) {
        return Err(
            MigrationError::NameMismatch {
                version: migration.version(),
                expected: migration.name(),
                actual: record.name.clone(),
            },
        );
    }
    if !same_text(record.checksum.as_str(), migration.checksum().as_str()) {
        return Err(
            MigrationError::ChecksumMismatch {
                version: migration.version(),
                name: migration.name(),
            },
        );
    }
    Ok(())
}

/// Refuses a history that is not how the migrations begin.
pub fn validate_applied_migrations(
    migrations: &Vec<Migration>,
    applied: &Vec<AppliedMigration>,
) -> (r: Result<(), MigrationError>)
    ensures
        migration_fault(r) == history_fault(migrations@, applied@),
{
    let mut i: usize = 0;
    while i < applied.len()
        invariant
            i <= applied.len(),
            history_fault(migrations@, applied@.take(i as int)) is None,
        decreases applied.len() - i,
    {
        let ghost longer = applied@.take(i + 1);
        assert(longer.drop_last() =~= applied@.take(i as int));
        if let Err(error) = validate_applied_migration(migrations, i, &applied[i]) {
            proof {
                history_fault_of_prefix(migrations@, applied@, i + 1);
            }
            return Err(error);
        }
        i = i + 1;
    }
    assert(applied@.take(i as int) =~= applied@);
    Ok(())
}

/// The version of the schema that a history leads to.
pub open spec fn reached(applied: Seq<AppliedMigration>) -> int {
    if applied.len() == 0 {
        0
    } else {
        applied.last().version as int
    }
}

/// What is wrong with the version that the database claims.
pub open spec fn user_version_fault(applied: Seq<AppliedMigration>, actual: i64) -> Option<
    MigrationFault,
> {
    if actual == reached(applied) {
        None
    } else {
        Some(
            MigrationFault::UserVersionMismatch {
                expected: reached(applied),
                actual: actual as int,
            },
        )
    }
}

/// Refuses a database that claims another version than its history leads to.
pub fn validate_user_version(applied: &Vec<AppliedMigration>, actual: i64) -> (r: Result<
    (),
    MigrationError,
>)
    ensures
        migration_fault(r) == user_version_fault(applied@, actual),
{
    let expected: u32 = if applied.len() == 0 {
        0
    } else {
        applied[applied.len() - 1].version
    };
    if actual != expected as i64 {
        return Err(MigrationError::UserVersionMismatch { expected, actual });
    }
    Ok(())
}

/// The time at which a migration is applied, as a column: `since_epoch` is how
/// many milliseconds have passed since 1970, unless the clock stands before.
pub fn unix_timestamp_millis(since_epoch: Option<u128>) -> (r: Result<i64, MigrationError>)
    ensures
        migration_fault(r) == (match since_epoch {
            None => Some(MigrationFault::TimeBeforeUnixEpoch),
            Some(millis) => if millis > i64::MAX {
                Some(MigrationFault::TimestampOverflow)
            } else {
                None
            },
        }),
        r matches Ok(column) ==> Some(column as u128) == since_epoch && column >= 0,
{
    match since_epoch {
        None => Err(MigrationError::TimeBeforeUnixEpoch),
        Some(millis) => {
            if millis > i64::MAX as u128 {
                Err(MigrationError::TimestampOverflow)
            } else {
                Ok(millis as i64)
            }
        },
    }
}

/// Migrations in order, one for every version.
#[derive(Debug)]
pub struct Migrator {
    migrations: Vec<Migration>,
}

impl View for Migrator {
    type V = Seq<Migration>;

    closed spec fn view(&self) -> Seq<Migration> {
        self.migrations@
    }
}

/// What is wrong with a database that is to be brought up to date.
pub open spec fn run_fault(
    migrations: Seq<Migration>,
    applied: Seq<AppliedMigration>,
    user_version: i64,
) -> Option<MigrationFault> {
    let before = history_fault(migrations, applied);
    if before is Some {
        before
    } else {
        user_version_fault(applied, user_version)
    }
}

impl Migrator {
    #[verifier::type_invariant]
    spec fn counted(self) -> bool {
        sequence_fault(self.migrations@) is None
    }

    /// Takes migrations whose versions are one, two and so on, and no others.
    pub fn new(migrations: Vec<Migration>) -> (r: Result<Migrator, MigrationError>)
        ensures
            migration_fault(r) == sequence_fault(migrations@),
            r matches Ok(migrator) ==> migrator@ == migrations@,
    {
        let mut i: usize = 0;
        while i < migrations.len()
            invariant
                i <= migrations.len(),
                sequence_fault(migrations@.take(i as int)) is None,
            decreases migrations.len() - i,
        {
            let ghost longer = migrations@.take(i + 1);
            assert(longer.drop_last() =~= migrations@.take(i as int));
            match expected_version(i) {
                Err(error) => {
                    proof {
                        sequence_fault_of_prefix(migrations@, i + 1);
                    }
                    return Err(error);
                },
                Ok(expected) => {
                    if migrations[i].version() != expected {
                        proof {
                            sequence_fault_of_prefix(migrations@, i + 1);
                        }
                        return Err(
                            MigrationError::InvalidSequence {
                                expected,
                                found: migrations[i].version(),
                            },
                        );
                    }
                },
            }
            i = i + 1;
        }
        assert(migrations@.take(i as int) =~= migrations@);
        Ok(Migrator { migrations })
    }

    /// The migrations that a database lacks, in the order in which they are to
    /// be applied; or why it cannot be brought up to date.
    pub fn pending(&self, applied: &Vec<AppliedMigration>, user_version: i64) -> (r: Result<
        Vec<Migration>,
        MigrationError,
    >)
        ensures
            migration_fault(r) == run_fault(self@, applied@, user_version),
            r matches Ok(pending) ==> pending@ == self@.skip(applied@.len() as int),
    {
        validate_applied_migrations(&self.migrations, applied)?;
        validate_user_version(applied, user_version)?;
        proof {
            history_is_within(self.migrations@, applied@);
        }
        let mut pending: Vec<Migration> = Vec::new();
        let mut i: usize = applied.len();
        while i < self.migrations.len()
            invariant
                applied.len() <= i <= self.migrations.len(),
                pending@ == self.migrations@.subrange(applied.len() as int, i as int),
            decreases self.migrations.len() - i,
        {
            let migration = self.migrations[i];
            pending.push(migration);
            assert(self.migrations@.subrange(applied.len() as int, i + 1)
                =~= self.migrations@.subrange(applied.len() as int, i as int).push(migration));
            i = i + 1;
        }
        assert(pending@ =~= self@.skip(applied@.len() as int));
        Ok(pending)
    }

    /// Brings a database up to date: tells which migrations are executed, in
    /// their order and each once, and what the database remembers afterwards.
    /// `applied` is what it remembers before, and `user_version` the version
    /// that it claims.
    pub fn run(&self, applied: Vec<AppliedMigration>, user_version: i64) -> (r: Result<
        MigrationRun,
        MigrationError,
    >)
        ensures
            migration_fault(r) == run_fault(self@, applied@, user_version),
            r matches Ok(run) ==> {
                &&& run.executed@ == self@.skip(applied@.len() as int)
                &&& up_to_date(self@, applied@, run.applied@)
                &&& run.user_version == self@.len()
            },
    {
        let executed = self.pending(&applied, user_version)?;
        proof {
            use_type_invariant(self);
            versions_count_up(self@);
            history_is_within(self@, applied@);
        }
        let ghost given = applied@;
        let mut after = applied;
        let mut i: usize = 0;
        while i < executed.len()
            invariant
                i <= executed.len(),
                given.len() <= self@.len(),
                executed@ == self@.skip(given.len() as int),
                after@.len() == given.len() + i,
                after@.take(given.len() as int) == given,
                forall|j: int|
                    given.len() <= j < after@.len() ==> remembers(
                        #[trigger] after@[j],
                        self@[j]@,
                    ),
            decreases executed.len() - i,
        {
            let ghost before = after@;
            after.push(applied_record(&executed[i]));
            i = i + 1;
            assert(after@.take(given.len() as int) =~= given);
            assert forall|j: int| given.len() <= j < after@.len() implies remembers(
                #[trigger] after@[j],
                self@[j]@,
            ) by {
                if j < before.len() {
                    assert(after@[j] == before[j]);
                }
            }
        }
        Ok(
            MigrationRun {
                executed,
                user_version: self.migrations.len() as i64,
                applied: after,
            },
        )
    }
}

/// What bringing a database up to date comes to.
#[derive(Debug)]
pub struct MigrationRun {
    /// The migrations that are executed, in their order.
    pub executed: Vec<Migration>,
    /// What the database remembers afterwards.
    pub applied: Vec<AppliedMigration>,
    /// The version that the database claims afterwards.
    pub user_version: i64,
}

/// A database that remembered some migrations remembers all of them, and those
/// that it remembered as it did.
pub open spec fn up_to_date(
    migrations: Seq<Migration>,
    applied: Seq<AppliedMigration>,
    after: Seq<AppliedMigration>,
) -> bool {
    &&& applied.len() <= after.len() == migrations.len()
    &&& after.take(applied.len() as int) == applied
    &&& forall|i: int|
        applied.len() <= i < after.len() ==> remembers(#[trigger] after[i], migrations[i]@)
}

/// What the database remembers of a migration once it was applied.
pub open spec fn remembers(record: AppliedMigration, migration: Step) -> bool {
    &&& record.version == migration.version
    &&& record.name@ == migration.name
    &&& record.checksum@ == json::text_digest(migration.sql)
}

/// What the database is to remember of a migration that was applied.
pub fn applied_record(migration: &Migration) -> (r: AppliedMigration)
    ensures
        remembers(r, migration@),
{
    AppliedMigration {
        version: migration.version(),
        name: migration.name().to_owned(),
        checksum: migration.checksum(),
    }
}

/// A database that remembers the first migrations is accepted at every step,
/// and lacks the others: bringing it up to date can stop and go on anywhere.
pub proof fn every_step_is_accepted(migrations: Seq<Migration>, applied: Seq<AppliedMigration>)
    requires
        sequence_fault(migrations) is None,
        applied.len() <= migrations.len(),
        forall|i: int|
            0 <= i < applied.len() ==> remembers(#[trigger] applied[i], migrations[i]@),
    ensures
        run_fault(migrations, applied, applied.len() as i64) is None,
    decreases applied.len(),
{
    versions_count_up(migrations);
    history_is_accepted(migrations, applied);
}

proof fn history_is_accepted(migrations: Seq<Migration>, applied: Seq<AppliedMigration>)
    requires
        migrations.len() <= u32::MAX,
        forall|i: int| 0 <= i < migrations.len() ==> (#[trigger] migrations[i])@.version == i + 1,
        applied.len() <= migrations.len(),
        forall|i: int|
            0 <= i < applied.len() ==> remembers(#[trigger] applied[i], migrations[i]@),
    ensures
        history_fault(migrations, applied) is None,
    decreases applied.len(),
{
    if applied.len() > 0 {
        let last = applied.len() - 1;
        assert(remembers(applied[last], migrations[last]@));
        assert forall|i: int| 0 <= i < applied.drop_last().len() implies remembers(
            #[trigger] applied.drop_last()[i],
            migrations[i]@,
        ) by {
            assert(remembers(applied[i], migrations[i]@));
        }
        history_is_accepted(migrations, applied.drop_last());
    }
}

/// A migration that was changed after it was applied is noticed, unless its
/// digest stayed the same.
pub proof fn changed_migrations_are_noticed(
    migrations: Seq<Migration>,
    applied: Seq<AppliedMigration>,
    i: int,
)
    requires
        0 <= i < applied.len(),
        i < migrations.len(),
        applied[i].checksum@ != json::text_digest(migrations[i]@.sql),
    ensures
        history_fault(migrations, applied) is Some,
    decreases applied.len(),
{
    if i < applied.len() - 1 {
        assert(applied.drop_last()[i] == applied[i]);
        changed_migrations_are_noticed(migrations, applied.drop_last(), i);
    }
}

proof fn accepted_histories_are_remembered(
    migrations: Seq<Migration>,
    applied: Seq<AppliedMigration>,
)
    requires
        forall|i: int| 0 <= i < migrations.len() ==> (#[trigger] migrations[i])@.version == i + 1,
        history_fault(migrations, applied) is None,
    ensures
        applied.len() <= migrations.len(),
        forall|i: int|
            0 <= i < applied.len() ==> remembers(#[trigger] applied[i], migrations[i]@),
    decreases applied.len(),
{
    if applied.len() > 0 {
        let shorter = applied.drop_last();
        let last = applied.len() - 1;
        accepted_histories_are_remembered(migrations, shorter);
        assert(migrations[last]@.version == last + 1);
        assert forall|i: int| 0 <= i < applied.len() implies remembers(
            #[trigger] applied[i],
            migrations[i]@,
        ) by {
            if i < last {
                assert(shorter[i] == applied[i]);
            }
        }
    }
}

/// A database that was brought up to date remembers every migration under its
/// version, name and digest; it is accepted as it then is, and a second run
/// executes nothing and changes nothing.
pub proof fn second_runs_do_nothing(
    migrations: Seq<Migration>,
    applied: Seq<AppliedMigration>,
    user_version: i64,
    after: Seq<AppliedMigration>,
)
    requires
        sequence_fault(migrations) is None,
        run_fault(migrations, applied, user_version) is None,
        up_to_date(migrations, applied, after),
    ensures
        forall|i: int|
            0 <= i < migrations.len() ==> remembers(#[trigger] after[i], migrations[i]@)
                && after[i].version == i + 1,
        run_fault(migrations, after, migrations.len() as i64) is None,
        migrations.skip(after.len() as int) == Seq::<Migration>::empty(),
        up_to_date(migrations, after, after),
        forall|again: Seq<AppliedMigration>|
            #[trigger] up_to_date(migrations, after, again) ==> again == after,
{
    versions_count_up(migrations);
    accepted_histories_are_remembered(migrations, applied);
    assert forall|i: int| 0 <= i < migrations.len() implies remembers(
        #[trigger] after[i],
        migrations[i]@,
    ) && after[i].version == i + 1 by {
        if i < applied.len() {
            assert(after.take(applied.len() as int)[i] == after[i]);
            assert(remembers(applied[i], migrations[i]@));
        }
        assert(migrations[i]@.version == i + 1);
    }
    every_step_is_accepted(migrations, after);
    assert(migrations.skip(after.len() as int) =~= Seq::<Migration>::empty());
    assert(after.take(after.len() as int) =~= after);
    assert forall|again: Seq<AppliedMigration>| #[trigger]
        up_to_date(migrations, after, again) implies again == after by {
        assert(again.take(after.len() as int) =~= again);
    }
}

/// A history is accepted if it is the beginning of the migrations there are:
/// numbered from one, under the same names and with the same contents, and the
/// database says that it stands at its end.
pub proof fn accepted_histories_are_beginnings(
    migrations: Seq<Migration>,
    applied: Seq<AppliedMigration>,
    user_version: i64,
)
    requires
        sequence_fault(migrations) is None,
        run_fault(migrations, applied, user_version) is None,
    ensures
        applied.len() <= migrations.len(),
        user_version == applied.len(),
        forall|i: int|
            0 <= i < applied.len() ==> (#[trigger] applied[i]).version == i + 1
                && applied[i].name@ == migrations[i]@.name && applied[i].checksum@
                == json::text_digest(migrations[i]@.sql),
{
    versions_count_up(migrations);
    accepted_histories_are_remembered(migrations, applied);
    if applied.len() > 0 {
        assert(applied[applied.len() - 1].version == applied.len());
    }
}

/// Every beginning of the migrations there are is accepted as a history, of a
/// database that stands at its end.
pub proof fn beginnings_are_accepted(
    migrations: Seq<Migration>,
    applied: Seq<AppliedMigration>,
)
    requires
        sequence_fault(migrations) is None,
        applied.len() <= migrations.len(),
        forall|i: int|
            0 <= i < applied.len() ==> (#[trigger] applied[i]).version == i + 1
                && applied[i].name@ == migrations[i]@.name && applied[i].checksum@
                == json::text_digest(migrations[i]@.sql),
    ensures
        run_fault(migrations, applied, applied.len() as i64) is None,
{
    versions_count_up(migrations);
    assert forall|i: int| 0 <= i < applied.len() implies remembers(
        #[trigger] applied[i],
        migrations[i]@,
    ) by {
        assert(migrations[i]@.version == i + 1);
    }
    every_step_is_accepted(migrations, applied);
}

/// Migrations are accepted if they are numbered from one without a gap.
pub proof fn numbered_migrations_are_accepted(migrations: Seq<Migration>)
    requires
        migrations.len() <= u32::MAX,
        forall|i: int| 0 <= i < migrations.len() ==> (#[trigger] migrations[i])@.version == i + 1,
    ensures
        sequence_fault(migrations) is None,
    decreases migrations.len(),
{
    if migrations.len() > 0 {
        let rest = migrations.drop_last();
        assert forall|i: int| 0 <= i < rest.len() implies (#[trigger] rest[i])@.version == i + 1 by {
            assert(rest[i] == migrations[i]);
        }
        numbered_migrations_are_accepted(rest);
        assert(migrations[migrations.len() - 1]@.version == migrations.len());
    }
}

/// A run adds to the history the migrations that were missing, one record each,
/// and keeps what was there.
pub proof fn runs_add_what_was_missing(
    migrations: Seq<Migration>,
    applied: Seq<AppliedMigration>,
    after: Seq<AppliedMigration>,
    i: int,
)
    requires
        up_to_date(migrations, applied, after),
        0 <= i < migrations.len(),
    ensures
        after.len() == migrations.len(),
        i < applied.len() ==> after[i] == applied[i],
        i >= applied.len() ==> after[i].version == migrations[i]@.version && after[i].name@
            == migrations[i]@.name && after[i].checksum@ == json::text_digest(migrations[i]@.sql),
{
    if i < applied.len() {
        assert(after.take(applied.len() as int)[i] == applied[i]);
    }
}

/// Migrations are numbered by their place, from one, as far as numbers reach.
pub proof fn places_are_numbered_from_one(place: int)
    requires
        place >= 0,
    ensures
        place + 1 <= u32::MAX ==> version_at(place) == Some(place + 1),
        place + 1 > u32::MAX ==> version_at(place) is None,
{
}

}
