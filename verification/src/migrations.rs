//! The database's migrations: which ones run, and under which database they
//! are registered.

use vstd::prelude::*;
use crate::linked_map::LinkedHashMap;
use crate::text::owned;

verus! {

/// Whether a migration moves the schema forward or back.
#[derive(Clone, Copy, Debug, PartialEq, Eq, Structural)]
pub enum MigrationKind {
    Up,
    Down,
}

/// A migration definition.
#[derive(Debug)]
pub struct Migration {
    pub version: i64,
    pub description: &'static str,
    pub sql: &'static str,
    pub kind: MigrationKind,
}

/// The migrations of one database.
pub struct MigrationList(pub Vec<Migration>);

/// The forward migrations among `ms`, in their order.
pub open spec fn forward_only(ms: Seq<Migration>) -> Seq<Migration>
    decreases ms.len(),
{
    if ms.len() == 0 {
        ms
    } else if ms.last().kind is Up {
        forward_only(ms.drop_last()).push(ms.last())
    } else {
        forward_only(ms.drop_last())
    }
}

impl MigrationList {
    /// The migrations that are run: the forward ones, in order.
    pub fn resolve(self) -> (r: Vec<Migration>)
        ensures
            r@ == forward_only(self.0@),
    {
        let ghost all = self.0@;
        let mut rest = self.0;
        let mut r: Vec<Migration> = Vec::new();
        let mut i: usize = 0;
        let n = rest.len();
        while rest.len() > 0
            invariant
                i + rest@.len() == n,
                n == all.len(),
                rest@ == all.subrange(i as int, n as int),
                r@ == forward_only(all.take(i as int)),
            decreases rest@.len(),
        {
            let m = rest.remove(0);
            assert(all.take(i + 1).drop_last() =~= all.take(i as int));
            assert(m == all[i as int]);
            if m.kind == MigrationKind::Up {
                r.push(m);
            }
            i = i + 1;
            assert(rest@ =~= all.subrange(i as int, n as int));
        }
        assert(all.take(n as int) =~= all);
        r
    }
}

/// Registers `migrations` under the database `db_url`: a map that holds that
/// one entry.
pub fn add_migrations(db_url: &str, migrations: Vec<Migration>) -> (r: Option<LinkedHashMap<String, MigrationList>>)
    ensures
        r matches Some(m) && m.wf() && m.keys().len() == 1 && m.keys()[0]@ == db_url@
            && m.vals()[0].0@ == migrations@,
{
    let ghost ms = migrations@;
    let mut map: LinkedHashMap<String, MigrationList> = LinkedHashMap::new();
    let _ = map.insert(owned(db_url), MigrationList(migrations));
    proof {
        crate::linked_map::lemma_key_index(Seq::<String>::empty(), db_url@);
    }
    Some(map)
}

} // verus!
