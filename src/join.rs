//! The hash join between the seek index (probe table) and the stream of
//! keyed transaction rows.
use vstd::prelude::*;
use vstd::hash_map::StringHashMap;

verus! {

/// Probes the table with one streamed row: a hit hands back the table's
/// offset with the row and its key, a miss hands back nothing.
pub fn probe<B>(table: &StringHashMap<u64>, key: String, row: B) -> (r: Option<(u64, B, String)>)
    ensures
        r == (if table@.contains_key(key@) {
            Some((table@[key@], row, key))
        } else {
            None
        }),
{
    match table.get(key.as_str()) {
        Some(offset) => Some((*offset, row, key)),
        None => None,
    }
}

/// The join of a table with a run of keys: for each key that the table
/// holds, in order, the table's offset and the key's position in the run.
pub open spec fn join_spec(table: Map<Seq<char>, u64>, keys: Seq<Seq<char>>) -> Seq<(u64, int)>
    decreases keys.len(),
{
    if keys.len() == 0 {
        Seq::empty()
    } else {
        let n = keys.len() - 1;
        let rest = join_spec(table, keys.drop_last());
        if table.contains_key(keys[n]) {
            rest.push((table[keys[n]], n))
        } else {
            rest
        }
    }
}

/// Joins a table with a run of keys; each hit gives the offset and the
/// index of the key that matched, in the keys' order.
pub fn hash_match(table: &StringHashMap<u64>, keys: &Vec<String>) -> (r: Vec<(u64, usize)>)
    ensures
        r@.map_values(|p: (u64, usize)| (p.0, p.1 as int)) == join_spec(table@, keys@.map_values(|k: String| k@)),
{
    let ghost kv = keys@.map_values(|k: String| k@);
    let mut out: Vec<(u64, usize)> = Vec::new();
    let mut i: usize = 0;
    while i < keys.len()
        invariant
            i <= keys@.len(),
            kv == keys@.map_values(|k: String| k@),
            out@.map_values(|p: (u64, usize)| (p.0, p.1 as int)) == join_spec(table@, kv.take(i as int)),
        decreases keys@.len() - i,
    {
        assert(kv.take(i as int + 1).drop_last() =~= kv.take(i as int));
        let ghost before = out@;
        match table.get(keys[i].as_str()) {
            Some(offset) => {
                out.push((*offset, i));
                assert(out@.map_values(|p: (u64, usize)| (p.0, p.1 as int)) =~= before.map_values(
                    |p: (u64, usize)| (p.0, p.1 as int),
                ).push((*offset, i as int)));
            },
            None => {},
        }
        i = i + 1;
    }
    assert(kv.take(i as int) =~= kv);
    out
}

} // verus!
