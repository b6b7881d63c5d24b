//! The table of supported APIs and the lookup on it.

use vstd::prelude::*;

verus! {

/// One supported API: its key and the inclusive range of versions served.
#[derive(Clone, Copy, Debug, PartialEq, Eq, Structural)]
pub struct ApiKeyVersionInfo {
    pub id: i16,
    pub min: i16,
    pub max: i16,
}

/// The table served by this library, in the order in which it is advertised.
pub open spec fn registry() -> Seq<ApiKeyVersionInfo> {
    seq![
        ApiKeyVersionInfo { id: 17, min: 0, max: 4 },
        ApiKeyVersionInfo { id: 18, min: 0, max: 4 },
        ApiKeyVersionInfo { id: 19, min: 0, max: 4 },
    ]
}

/// The first entry of `table` whose key is `key`, if there is one.
pub open spec fn find_api(table: Seq<ApiKeyVersionInfo>, key: i16) -> Option<ApiKeyVersionInfo>
    decreases table.len(),
{
    if table.len() == 0 {
        None
    } else if table[0].id == key {
        Some(table[0])
    } else {
        find_api(table.drop_first(), key)
    }
}

/// Builds the table of supported APIs.
pub fn supported_apis() -> (table: Vec<ApiKeyVersionInfo>)
    ensures
        table@ == registry(),
{
    let mut table: Vec<ApiKeyVersionInfo> = Vec::new();
    table.push(ApiKeyVersionInfo { id: 17, min: 0, max: 4 });
    table.push(ApiKeyVersionInfo { id: 18, min: 0, max: 4 });
    table.push(ApiKeyVersionInfo { id: 19, min: 0, max: 4 });
    table
}

/// Looks `key` up in `table` by exact match.
pub fn lookup(table: &Vec<ApiKeyVersionInfo>, key: i16) -> (found: Option<ApiKeyVersionInfo>)
    ensures
        found == find_api(table@, key),
{
    let mut i: usize = 0;
    assert(table@.skip(0) =~= table@);
    while i < table.len()
        invariant
            i <= table@.len(),
            find_api(table@, key) == find_api(table@.skip(i as int), key),
        decreases table@.len() - i,
    {
        let entry = table[i];
        if entry.id == key {
            return Some(entry);
        }
        assert(table@.skip(i as int).drop_first() =~= table@.skip(i as int + 1));
        i += 1;
    }
    None
}

/// Whether the table serves `key`: the keys 17, 18 and 19 and no others.
pub proof fn lemma_registry_keys(key: i16)
    ensures
        find_api(registry(), key) is Some <==> (key == 17 || key == 18 || key == 19),
        find_api(registry(), key) matches Some(e) ==> e == (ApiKeyVersionInfo {
            id: key,
            min: 0,
            max: 4,
        }),
{
    reveal_with_fuel(find_api, 4);
}

} // verus!
