use vstd::prelude::*;

use crate::history::{dec, dec_text};
use crate::text::{chars_of, push_all, push_str, string_of};

verus! {

/// One step of bringing the database schema up to date.
#[derive(Debug, Clone, Copy, PartialEq, Eq, Structural)]
pub enum MigrationStep {
    /// Run migration `v` (1-based) and record version `v`.
    Apply(u32),
    /// Record version `v` without running it: an older database already has
    /// the tables that migration creates.
    MarkApplied(u32),
}

/// The step for version `v`.
pub open spec fn step_for(v: u32, has_legacy_tables: bool) -> MigrationStep {
    if v == 1 && has_legacy_tables {
        MigrationStep::MarkApplied(v)
    } else {
        MigrationStep::Apply(v)
    }
}

/// The error for a database newer than the application.
pub open spec fn too_new_error(current: u32, total: u32) -> Seq<char> {
    "БД версии "@ + dec(current as nat) + " новее приложения ("@ + dec(total as nat)
        + "). Обновите приложение."@
}

/// The migrations to run on a database at schema version `current`, with
/// `total` migrations known: none when it is current, an error when it is
/// newer, otherwise each later version in order (the first one only
/// recorded when an older database already has its tables).
pub fn migration_plan(current: u32, total: u32, has_legacy_tables: bool) -> (r: Result<
    Vec<MigrationStep>,
    String,
>)
    ensures
        current > total ==> (r matches Err(m) && m@ == too_new_error(current, total)),
        current <= total ==> (r matches Ok(steps) && steps@.len() == total - current && forall|
            i: int,
        |
            0 <= i < steps@.len() ==> #[trigger] steps@[i] == step_for(
                (current + 1 + i) as u32,
                has_legacy_tables,
            )),
{
    if current > total {
        let mut m = chars_of("БД версии ");
        push_all(&mut m, &dec_text(current as u64));
        push_str(&mut m, " новее приложения (");
        push_all(&mut m, &dec_text(total as u64));
        push_str(&mut m, "). Обновите приложение.");
        return Err(string_of(&m));
    }
    let mut steps: Vec<MigrationStep> = Vec::new();
    let mut v: u32 = current;
    while v < total
        invariant
            current <= v <= total,
            steps@.len() == v - current,
            forall|i: int|
                0 <= i < steps@.len() ==> #[trigger] steps@[i] == step_for(
                    (current + 1 + i) as u32,
                    has_legacy_tables,
                ),
        decreases total - v,
    {
        let next = v + 1;
        if next == 1 && has_legacy_tables {
            steps.push(MigrationStep::MarkApplied(next));
        } else {
            steps.push(MigrationStep::Apply(next));
        }
        v = next;
    }
    Ok(steps)
}

} // verus!
