//! Names stored in a string table: nul-terminated byte strings addressed by
//! the offset of their first byte.
use vstd::prelude::*;

verus! {

/// Whether `name`, followed by a nul byte, is stored at `start` in `table`
/// and holds no nul byte itself.
pub open spec fn name_stored_at(table: Seq<u8>, start: int, name: Seq<u8>) -> bool {
    &&& 0 <= start
    &&& start + name.len() < table.len()
    &&& table.subrange(start, start + name.len()) == name
    &&& table[start + name.len()] == 0
    &&& forall|k: int| 0 <= k < name.len() ==> #[trigger] name[k] != 0
}

/// Whether a nul byte terminates a name that starts at `start`.
pub open spec fn terminated_from(table: Seq<u8>, start: int) -> bool {
    exists|k: int| 0 <= start <= k < table.len() && #[trigger] table[k] == 0
}

/// The name that starts at `start` in `table`, without its nul terminator;
/// `None` when no nul byte follows `start`.
pub fn name_at(table: &[u8], start: usize) -> (r: Option<Vec<u8>>)
    ensures
        r is Some <==> terminated_from(table@, start as int),
        r matches Some(name) ==> name_stored_at(table@, start as int, name@),
{
    let mut name: Vec<u8> = Vec::new();
    let mut k: usize = start;
    while k < table.len()
        invariant
            start <= k,
            start < table.len() ==> k <= table.len() && name@ == table@.subrange(start as int, k as int),
            forall|j: int| start <= j < k ==> table@[j] != 0,
        decreases table.len() - k,
    {
        if table[k] == 0 {
            proof {
                assert forall|j: int| 0 <= j < name@.len() implies #[trigger] name@[j] != 0 by {
                    assert(name@[j] == table@[start + j]);
                }
            }
            return Some(name);
        }
        name.push(table[k]);
        proof {
            assert(name@ =~= table@.subrange(start as int, k + 1));
        }
        k = k + 1;
    }
    None
}

/// At most one name is stored at a given offset.
pub proof fn lemma_name_unique(table: Seq<u8>, start: int, a: Seq<u8>, b: Seq<u8>)
    requires
        name_stored_at(table, start, a),
        name_stored_at(table, start, b),
    ensures
        a == b,
{
    if a.len() < b.len() {
        assert(b[a.len() as int] == table.subrange(start, start + b.len())[a.len() as int]);
    } else if b.len() < a.len() {
        assert(a[b.len() as int] == table.subrange(start, start + a.len())[b.len() as int]);
    }
}

} // verus!
