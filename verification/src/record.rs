//! The game record: the identifier, display name and content hash that the
//! provisioning pipeline, the launcher and the identification broker read.
use vstd::prelude::*;

verus! {

/// A catalog game record as this runtime consumes it: a stable identifier
/// (shared by the catalog and the filesystem), a display name, and the
/// base64-encoded digest of the packaged artifact.
pub struct GameRecord {
    pub id: String,
    pub name: String,
    pub hash: String,
}

/// The sentinel record that the current-game slot holds before any launch.
pub open spec fn is_sentinel(g: GameRecord) -> bool {
    g.id@ == Seq::<char>::empty() && g.name@ == Seq::<char>::empty() && g.hash@
        == Seq::<char>::empty()
}

/// The records of the present results, in order.
pub open spec fn some_records(s: Seq<Option<GameRecord>>) -> Seq<GameRecord>
    decreases s.len(),
{
    if s.len() == 0 {
        Seq::empty()
    } else if s[0] is Some {
        seq![s[0].unwrap()] + some_records(s.drop_first())
    } else {
        some_records(s.drop_first())
    }
}

/// Keeps the records that could be resolved and drops the misses, in
/// order: a failed per-record fetch or parse is skipped, never fatal to
/// the whole listing.
pub fn keep_found(results: Vec<Option<GameRecord>>) -> (r: Vec<GameRecord>)
    ensures
        r@ == some_records(results@),
{
    let n = results.len();
    let mut r: Vec<GameRecord> = Vec::new();
    let mut i: usize = 0;
    proof {
        assert(results@.skip(0) =~= results@);
    }
    while i < n
        invariant
            n == results@.len(),
            0 <= i <= n,
            r@ + some_records(results@.skip(i as int)) =~= some_records(results@),
        decreases n - i,
    {
        proof {
            let rest = results@.skip(i as int);
            assert(rest[0] == results@[i as int]);
            assert(rest.drop_first() =~= results@.skip(i as int + 1));
            if results@[i as int] is Some {
                assert(r@ + (seq![rest[0].unwrap()] + some_records(rest.drop_first())) =~= (r@
                    + seq![rest[0].unwrap()]) + some_records(rest.drop_first()));
                assert(r@.push(rest[0].unwrap()) =~= r@ + seq![rest[0].unwrap()]);
            }
        }
        match &results[i] {
            Some(g) => {
                r.push(g.clone());
            },
            None => {},
        }
        i = i + 1;
    }
    proof {
        assert(some_records(results@.skip(n as int)) =~= Seq::<GameRecord>::empty());
        assert(r@ =~= r@ + some_records(results@.skip(n as int)));
    }
    r
}

impl Clone for GameRecord {
    fn clone(&self) -> (r: Self)
        ensures
            r == *self,
    {
        GameRecord { id: self.id.clone(), name: self.name.clone(), hash: self.hash.clone() }
    }
}

impl Default for GameRecord {
    fn default() -> (r: Self)
        ensures
            is_sentinel(r),
    {
        GameRecord { id: String::new(), name: String::new(), hash: String::new() }
    }
}

} // verus!
