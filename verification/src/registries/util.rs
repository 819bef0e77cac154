use vstd::prelude::*;

use crate::registry::Registry;
use crate::util::identifier::Identifier;

verus! {

/// What a registry built from these load results, in the order they
/// finished, maps identifiers to: every success is added in turn.
pub open spec fn loaded_map<T, E>(results: Seq<Result<(Identifier, T), E>>) -> Map<
    (Seq<char>, Seq<char>),
    T,
>
    decreases results.len(),
{
    if results.len() == 0 {
        Map::empty()
    } else {
        let before = loaded_map(results.drop_last());
        match results.last() {
            Ok(entry) => before.insert(entry.0@, entry.1),
            Err(_) => before,
        }
    }
}

/// The errors among these load results, in order.
pub open spec fn load_failures<T, E>(results: Seq<Result<(Identifier, T), E>>) -> Seq<E>
    decreases results.len(),
{
    if results.len() == 0 {
        Seq::empty()
    } else {
        let before = load_failures(results.drop_last());
        match results.last() {
            Ok(_) => before,
            Err(e) => before.push(e),
        }
    }
}

/// Builds a registry from the results of loading its entries, taken in the
/// order the loads finished. Any failure makes the whole build fail, with
/// every failure reported.
pub fn collect_loaded<T, E>(results: Vec<Result<(Identifier, T), E>>) -> (res: Result<
    Registry<T>,
    Vec<E>,
>)
    ensures
        match res {
            Ok(registry) => load_failures(results@).len() == 0 && registry@ == loaded_map(
                results@,
            ),
            Err(failures) => load_failures(results@).len() > 0 && failures@ == load_failures(
                results@,
            ),
        },
{
    let ghost all = results@;
    let total = results.len();
    assert(all.len() == total);
    let mut rest = results;
    let mut registry = Registry::new();
    let mut failures: Vec<E> = Vec::new();
    let mut k: usize = 0;
    proof {
        assert(all.take(0) =~= Seq::<Result<(Identifier, T), E>>::empty());
        assert(all.skip(0) =~= all);
    }
    while rest.len() > 0
        invariant
            k <= all.len(),
            all.len() <= usize::MAX,
            rest@ == all.skip(k as int),
            registry@ == loaded_map(all.take(k as int)),
            failures@ == load_failures(all.take(k as int)),
        decreases rest@.len(),
    {
        let ghost before = all.take(k as int);
        let r = rest.remove(0);
        proof {
            assert(all.take(k + 1).drop_last() =~= before);
            assert(all.take(k + 1).last() == r);
            assert(rest@ =~= all.skip(k + 1));
        }
        match r {
            Ok(entry) => {
                registry.add(entry.0, entry.1);
            },
            Err(e) => {
                failures.push(e);
            },
        }
        k = k + 1;
    }
    proof {
        assert(all.take(k as int) =~= all);
    }
    if failures.len() > 0 {
        Err(failures)
    } else {
        Ok(registry)
    }
}

} // verus!
