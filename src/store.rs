//! The concurrent maps that hold the engines' per-key state.
//!
//! State lives in `dashmap::DashMap`, a sharded map with per-shard locks.
//! Verus sees a map only through the names below for what it holds, and
//! through one small wrapper per method that the engines call.

use dashmap::DashMap;
use vstd::prelude::*;

verus! {

/// Declares `dashmap::DashMap` to Verus as an opaque type.
#[verifier::external_type_specification]
#[verifier::external_body]
#[verifier::reject_recursive_types(K)]
#[verifier::reject_recursive_types(V)]
#[verifier::reject_recursive_types(S)]
pub struct ExDashMap<K, V, S>(DashMap<K, V, S>);

/// Per-symbol state: a symbol and two accumulators.
pub type SymbolMap = DashMap<String, (i128, i128)>;

/// Key of a heatmap cell: bucket start, price bin, and `true` for the bid side.
pub type CellKey = (u64, i128, bool);

/// Heatmap grid: accumulated size per cell.
pub type GridMap = DashMap<CellKey, i128>;

/// What a symbol map holds, keyed by the symbol's characters.
pub uninterp spec fn symbol_entries(m: SymbolMap) -> Map<Seq<char>, (i128, i128)>;

/// What a grid holds.
pub uninterp spec fn grid_entries(m: GridMap) -> Map<CellKey, i128>;

/// The state of a symbol map that holds nothing.
pub open spec fn no_symbols() -> Map<Seq<char>, (i128, i128)> {
    Map::empty()
}

/// The state of a grid that holds nothing.
pub open spec fn no_cells() -> Map<CellKey, i128> {
    Map::empty()
}

/// Relies on `DashMap::new`: a new map is empty.
#[verifier::external_body]
pub(crate) fn symbol_map_new() -> (r: SymbolMap)
    ensures
        symbol_entries(r) == no_symbols(),
{
    DashMap::new()
}

/// Relies on `DashMap::get`: the value stored under the symbol, if any.
#[verifier::external_body]
pub(crate) fn symbol_map_get(m: &SymbolMap, symbol: &str) -> (r: Option<(i128, i128)>)
    ensures
        r == (if symbol_entries(*m).contains_key(symbol@) {
            Some(symbol_entries(*m)[symbol@])
        } else {
            None
        }),
{
    m.get(symbol).map(|e| *e.value())
}

/// Relies on `DashMap::insert`: the symbol now maps to the value, others keep theirs.
#[verifier::external_body]
pub(crate) fn symbol_map_insert(m: &mut SymbolMap, symbol: &str, value: (i128, i128))
    ensures
        symbol_entries(*final(m)) == symbol_entries(*old(m)).insert(symbol@, value),
{
    m.insert(symbol.to_string(), value);
}

/// Relies on `DashMap::remove`: the symbol is gone, others keep their values.
#[verifier::external_body]
pub(crate) fn symbol_map_remove(m: &mut SymbolMap, symbol: &str)
    ensures
        symbol_entries(*final(m)) == symbol_entries(*old(m)).remove(symbol@),
{
    m.remove(symbol);
}

/// Relies on `DashMap::clear`: the map is empty afterwards.
#[verifier::external_body]
pub(crate) fn symbol_map_clear(m: &mut SymbolMap)
    ensures
        symbol_entries(*final(m)) == no_symbols(),
{
    m.clear();
}

/// Relies on `DashMap::new`: a new map is empty.
#[verifier::external_body]
pub(crate) fn grid_new() -> (r: GridMap)
    ensures
        grid_entries(r) == no_cells(),
{
    DashMap::new()
}

/// Relies on `DashMap::get`: the size stored in the cell, if any.
#[verifier::external_body]
pub(crate) fn grid_get(m: &GridMap, key: CellKey) -> (r: Option<i128>)
    ensures
        r == (if grid_entries(*m).contains_key(key) {
            Some(grid_entries(*m)[key])
        } else {
            None
        }),
{
    m.get(&key).map(|e| *e.value())
}

/// Relies on `DashMap::insert`: the cell now holds the size, others keep theirs.
#[verifier::external_body]
pub(crate) fn grid_insert(m: &mut GridMap, key: CellKey, size: i128)
    ensures
        grid_entries(*final(m)) == grid_entries(*old(m)).insert(key, size),
{
    m.insert(key, size);
}

/// Relies on `DashMap::remove`: the cell is gone, others keep their sizes.
#[verifier::external_body]
pub(crate) fn grid_remove(m: &mut GridMap, key: CellKey)
    ensures
        grid_entries(*final(m)) == grid_entries(*old(m)).remove(key),
{
    m.remove(&key);
}

/// Relies on `DashMap::clear`: the grid is empty afterwards.
#[verifier::external_body]
pub(crate) fn grid_clear(m: &mut GridMap)
    ensures
        grid_entries(*final(m)) == no_cells(),
{
    m.clear();
}

/// `cells` lists each cell of `g` exactly once, with its size.
pub open spec fn enumerates(cells: Seq<(CellKey, i128)>, g: Map<CellKey, i128>) -> bool {
    &&& cells.len() == g.len()
    &&& forall|i: int|
        0 <= i < cells.len() ==> #[trigger] g.contains_key(cells[i].0) && g[cells[i].0]
            == cells[i].1
    &&& forall|i: int, j: int|
        0 <= i < cells.len() && 0 <= j < cells.len() && i != j ==> cells[i].0 != cells[j].0
    &&& forall|k: CellKey|
        #[trigger] g.contains_key(k) ==> exists|i: int| 0 <= i < cells.len() && cells[i].0 == k
}

/// Relies on `DashMap::iter`: it visits every cell once, in an order that
/// depends on the shards and is stated here for no run.
#[verifier::external_body]
pub(crate) fn grid_cells(m: &GridMap) -> (r: Vec<(CellKey, i128)>)
    ensures
        enumerates(r@, grid_entries(*m)),
{
    m.iter().map(|e| (*e.key(), *e.value())).collect()
}

} // verus!
