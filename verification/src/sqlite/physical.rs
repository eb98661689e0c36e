//! Component migration ledgers and the classification of SQLite failures.

use vstd::prelude::*;

verus! {

/// One numbered schema migration of a database component.
#[derive(Clone, Copy, Debug)]
pub struct ComponentMigration {
    pub version: u32,
    pub sql: &'static str,
}

/// Why a physical SQLite operation failed.
#[derive(Debug, PartialEq, Eq)]
pub enum SqlitePhysicalError {
    TransientBackend(String),
    PermanentBackend(String),
    FutureVersion { component: String, current: u32, supported: u32 },
    MigrationGap { component: String, expected: u32, actual: u32 },
}

/// A physical error taken by view.
pub enum PhysicalErrorView {
    TransientBackend(Seq<char>),
    PermanentBackend(Seq<char>),
    FutureVersion { component: Seq<char>, current: u32, supported: u32 },
    MigrationGap { component: Seq<char>, expected: u32, actual: u32 },
}

impl View for SqlitePhysicalError {
    type V = PhysicalErrorView;

    open spec fn view(&self) -> PhysicalErrorView {
        match self {
            SqlitePhysicalError::TransientBackend(m) => PhysicalErrorView::TransientBackend(m@),
            SqlitePhysicalError::PermanentBackend(m) => PhysicalErrorView::PermanentBackend(m@),
            SqlitePhysicalError::FutureVersion { component, current, supported } => {
                PhysicalErrorView::FutureVersion {
                    component: component@,
                    current: *current,
                    supported: *supported,
                }
            },
            SqlitePhysicalError::MigrationGap { component, expected, actual } => {
                PhysicalErrorView::MigrationGap {
                    component: component@,
                    expected: *expected,
                    actual: *actual,
                }
            },
        }
    }
}

impl SqlitePhysicalError {
    /// Whether a retry may succeed.
    pub fn is_transient(&self) -> (r: bool)
        ensures
            r == (self is TransientBackend),
    {
        match self {
            SqlitePhysicalError::TransientBackend(_) => true,
            _ => false,
        }
    }
}

/// The primary result code of a failed SQLite call, as far as the stores
/// tell codes apart.
#[derive(Clone, Copy, Debug, PartialEq, Eq, Structural)]
pub enum SqliteFailureCode {
    DatabaseBusy,
    DatabaseLocked,
    FileLockingProtocolFailed,
    SchemaChanged,
    Other,
}

/// A failure that a retry of the same work may get past: the database was
/// busy or locked, the locking protocol failed, or the schema changed.
pub open spec fn spec_is_transient_failure(code: Option<SqliteFailureCode>) -> bool {
    match code {
        Some(SqliteFailureCode::DatabaseBusy) => true,
        Some(SqliteFailureCode::DatabaseLocked) => true,
        Some(SqliteFailureCode::FileLockingProtocolFailed) => true,
        Some(SqliteFailureCode::SchemaChanged) => true,
        _ => false,
    }
}

pub fn is_transient_failure(code: Option<SqliteFailureCode>) -> (r: bool)
    ensures
        r == spec_is_transient_failure(code),
{
    match code {
        Some(SqliteFailureCode::DatabaseBusy) => true,
        Some(SqliteFailureCode::DatabaseLocked) => true,
        Some(SqliteFailureCode::FileLockingProtocolFailed) => true,
        Some(SqliteFailureCode::SchemaChanged) => true,
        _ => false,
    }
}

/// The first declared migration, from index `i` on, that is not numbered
/// one more than its position.
pub open spec fn declared_fault(component: Seq<char>, versions: Seq<u32>, i: int) -> Option<
    PhysicalErrorView,
>
    decreases versions.len() - i,
{
    if i < 0 || i >= versions.len() {
        None
    } else if i + 1 > u32::MAX {
        Some(PhysicalErrorView::PermanentBackend("too many migrations"@))
    } else if versions[i] != i + 1 {
        Some(
            PhysicalErrorView::MigrationGap {
                component,
                expected: (i + 1) as u32,
                actual: versions[i],
            },
        )
    } else {
        declared_fault(component, versions, i + 1)
    }
}

/// The versions of the declared migrations, in order.
pub open spec fn versions_of(migrations: Seq<ComponentMigration>) -> Seq<u32> {
    migrations.map_values(|m: ComponentMigration| m.version)
}

/// The declared migrations are numbered 1, 2, 3, ... in order.
pub fn check_declared_migrations(component: &str, migrations: &[ComponentMigration]) -> (r: Result<
    (),
    SqlitePhysicalError,
>)
    ensures
        match r {
            Ok(()) => declared_fault(component@, versions_of(migrations@), 0) is None,
            Err(e) => declared_fault(component@, versions_of(migrations@), 0) == Some(e@),
        },
{
    let ghost versions = versions_of(migrations@);
    let mut i: usize = 0;
    while i < migrations.len()
        invariant
            0 <= i <= migrations@.len(),
            versions == versions_of(migrations@),
            declared_fault(component@, versions, 0) == declared_fault(component@, versions, i as int),
        decreases migrations.len() - i,
    {
        assert(versions[i as int] == migrations@[i as int].version);
        if i >= u32::MAX as usize {
            return Err(SqlitePhysicalError::PermanentBackend("too many migrations".to_string()));
        }
        let expected: u32 = (i + 1) as u32;
        if migrations[i].version != expected {
            return Err(
                SqlitePhysicalError::MigrationGap {
                    component: component.to_string(),
                    expected,
                    actual: migrations[i].version,
                },
            );
        }
        i = i + 1;
    }
    Ok(())
}

/// The version the ledger's rows reach, reading from row `i` on with the
/// ledger at `current`: each row must be the next version.
pub open spec fn ledger_version(component: Seq<char>, applied: Seq<i64>, i: int, current: u32) -> Result<
    u32,
    PhysicalErrorView,
>
    decreases applied.len() - i,
{
    if i < 0 || i >= applied.len() {
        Ok(current)
    } else if applied[i] < 0 || applied[i] > u32::MAX {
        Err(PhysicalErrorView::PermanentBackend("negative migration version"@))
    } else if current == u32::MAX {
        Err(PhysicalErrorView::PermanentBackend("migration version overflow"@))
    } else if applied[i] != current + 1 {
        Err(
            PhysicalErrorView::MigrationGap {
                component,
                expected: (current + 1) as u32,
                actual: applied[i] as u32,
            },
        )
    } else {
        ledger_version(component, applied, i + 1, applied[i] as u32)
    }
}

/// The positions of the migrations to apply, from position `i` on, when
/// the last one applied is `applied`: every declared migration past the
/// ledger's version, each exactly the next version.
pub open spec fn pending_from(
    component: Seq<char>,
    versions: Seq<u32>,
    current: u32,
    i: int,
    applied: u32,
) -> Result<Seq<int>, PhysicalErrorView>
    decreases versions.len() - i,
{
    if i < 0 || i >= versions.len() {
        Ok(Seq::empty())
    } else if versions[i] <= current {
        pending_from(component, versions, current, i + 1, applied)
    } else if applied == u32::MAX {
        Err(PhysicalErrorView::PermanentBackend("migration version overflow"@))
    } else if versions[i] != applied + 1 {
        Err(
            PhysicalErrorView::MigrationGap {
                component,
                expected: (applied + 1) as u32,
                actual: versions[i],
            },
        )
    } else {
        match pending_from(component, versions, current, i + 1, versions[i]) {
            Ok(rest) => Ok(seq![i] + rest),
            Err(e) => Err(e),
        }
    }
}

/// The newest declared version, or 0 when none is declared.
pub open spec fn supported_version(versions: Seq<u32>) -> u32 {
    if versions.len() == 0 {
        0
    } else {
        versions.last()
    }
}

/// What the ledger and the declarations call for: the positions of the
/// migrations to apply, in order, or why none may be applied.
pub open spec fn migration_plan(component: Seq<char>, versions: Seq<u32>, applied: Seq<i64>) -> Result<
    Seq<int>,
    PhysicalErrorView,
> {
    match ledger_version(component, applied, 0, 0) {
        Err(e) => Err(e),
        Ok(current) => if current > supported_version(versions) {
            Err(
                PhysicalErrorView::FutureVersion {
                    component,
                    current,
                    supported: supported_version(versions),
                },
            )
        } else {
            pending_from(component, versions, current, 0, current)
        },
    }
}

/// Plans a component's migrations against the versions its ledger records,
/// in ascending order: the positions of the migrations to apply, in order.
pub fn plan_component_migrations(
    component: &str,
    migrations: &[ComponentMigration],
    applied: &[i64],
) -> (r: Result<Vec<usize>, SqlitePhysicalError>)
    ensures
        match r {
            Ok(p) => migration_plan(component@, versions_of(migrations@), applied@) == Ok::<
                Seq<int>,
                PhysicalErrorView,
            >(p@.map_values(|k: usize| k as int)),
            Err(e) => migration_plan(component@, versions_of(migrations@), applied@) == Err::<
                Seq<int>,
                PhysicalErrorView,
            >(e@),
        },
{
    let ghost versions = versions_of(migrations@);
    let mut current: u32 = 0;
    let mut i: usize = 0;
    while i < applied.len()
        invariant
            0 <= i <= applied@.len(),
            ledger_version(component@, applied@, 0, 0) == ledger_version(
                component@,
                applied@,
                i as int,
                current,
            ),
        decreases applied.len() - i,
    {
        let value = applied[i];
        if value < 0 || value > u32::MAX as i64 {
            return Err(
                SqlitePhysicalError::PermanentBackend("negative migration version".to_string()),
            );
        }
        if current == u32::MAX {
            return Err(
                SqlitePhysicalError::PermanentBackend("migration version overflow".to_string()),
            );
        }
        let actual = value as u32;
        if actual != current + 1 {
            return Err(
                SqlitePhysicalError::MigrationGap {
                    component: component.to_string(),
                    expected: current + 1,
                    actual,
                },
            );
        }
        current = actual;
        i = i + 1;
    }
    let supported: u32 = if migrations.len() == 0 {
        0
    } else {
        migrations[migrations.len() - 1].version
    };
    assert(supported == supported_version(versions));
    if current > supported {
        return Err(
            SqlitePhysicalError::FutureVersion {
                component: component.to_string(),
                current,
                supported,
            },
        );
    }
    let mut plan: Vec<usize> = Vec::new();
    let mut last = current;
    let mut j: usize = 0;
    while j < migrations.len()
        invariant
            0 <= j <= migrations@.len(),
            versions == versions_of(migrations@),
            ledger_version(component@, applied@, 0, 0) == Ok::<u32, PhysicalErrorView>(current),
            current <= supported_version(versions),
            pending_from(component@, versions, current, 0, current) == match pending_from(
                component@,
                versions,
                current,
                j as int,
                last,
            ) {
                Ok(rest) => Ok(plan@.map_values(|k: usize| k as int) + rest),
                Err(e) => Err(e),
            },
        decreases migrations.len() - j,
    {
        let version = migrations[j].version;
        assert(versions[j as int] == version);
        if version > current {
            if last == u32::MAX {
                return Err(
                    SqlitePhysicalError::PermanentBackend("migration version overflow".to_string()),
                );
            }
            if version != last + 1 {
                return Err(
                    SqlitePhysicalError::MigrationGap {
                        component: component.to_string(),
                        expected: last + 1,
                        actual: version,
                    },
                );
            }
            let ghost before = plan@.map_values(|k: usize| k as int);
            plan.push(j);
            proof {
                assert(plan@.map_values(|k: usize| k as int) =~= before.push(j as int));
                match pending_from(component@, versions, current, j + 1, version) {
                    Ok(rest) => {
                        assert(before + (seq![j as int] + rest) =~= before.push(j as int) + rest);
                    },
                    Err(_) => {},
                }
            }
            last = version;
        }
        j = j + 1;
    }
    proof {
        assert(plan@.map_values(|k: usize| k as int) + Seq::<int>::empty() =~= plan@.map_values(
            |k: usize| k as int,
        ));
    }
    Ok(plan)
}

} // verus!
