//! Loadable kernel modules: finding a symbol's address in a module's
//! symbol table.
use vstd::prelude::*;

verus! {

/// An entry of an ELF symbol table, as plain values.
pub struct Symbol {
    pub name: Vec<u8>,
    pub value: u64,
}

/// The value of the last symbol named `name`, or 0 when there is none.
pub open spec fn symbol_value(symbols: Seq<Symbol>, name: Seq<u8>) -> usize
    decreases symbols.len(),
{
    if symbols.len() == 0 {
        0
    } else if symbols.last().name@ == name {
        symbols.last().value as usize
    } else {
        symbol_value(symbols.drop_last(), name)
    }
}

/// Whether two byte strings are equal.
fn bytes_equal(a: &Vec<u8>, b: &Vec<u8>) -> (r: bool)
    ensures
        r == (a@ == b@),
{
    if a.len() != b.len() {
        return false;
    }
    let mut i: usize = 0;
    while i < a.len()
        invariant
            a.len() == b.len(),
            i <= a.len(),
            forall|k: int| 0 <= k < i ==> a@[k] == b@[k],
        decreases a.len() - i,
    {
        if a[i] != b[i] {
            return false;
        }
        i = i + 1;
    }
    proof {
        assert(a@ =~= b@);
    }
    true
}

/// The address, relative to the module's load base, of the symbol
/// `symbol_name` in the module's symbol table `symbols`: the value of the
/// last entry with that name, 0 when no entry has it.
pub fn get_symbol_addr_from_elf(symbols: &Vec<Symbol>, symbol_name: &Vec<u8>) -> (r: usize)
    ensures
        r == symbol_value(symbols@, symbol_name@),
{
    let mut entry: usize = 0;
    let mut i: usize = 0;
    while i < symbols.len()
        invariant
            i <= symbols.len(),
            entry == symbol_value(symbols@.take(i as int), symbol_name@),
        decreases symbols.len() - i,
    {
        proof {
            assert(symbols@.take(i as int + 1).drop_last() =~= symbols@.take(i as int));
        }
        if bytes_equal(&symbols[i].name, symbol_name) {
            entry = symbols[i].value as usize;
        }
        i = i + 1;
    }
    proof {
        assert(symbols@.take(i as int) =~= symbols@);
    }
    entry
}


/// A lookup finds exact names only, the last one winning: when some symbol
/// is named exactly `name` (same length, same bytes), the result is the
/// value of such a symbol with no later symbol of that name; when none is,
/// the result is 0, whatever symbols merely begin or end with `name`.
pub proof fn lemma_symbol_lookup_exact_last(symbols: Seq<Symbol>, name: Seq<u8>)
    ensures
        (exists|i: int| 0 <= i < symbols.len() && #[trigger] symbols[i].name@ == name) ==> exists|i: int|
            0 <= i < symbols.len() && #[trigger] symbols[i].name@ == name
                && symbol_value(symbols, name) == symbols[i].value as usize
                && forall|j: int| i < j < symbols.len() ==> #[trigger] symbols[j].name@ != name,
        (forall|i: int| 0 <= i < symbols.len() ==> #[trigger] symbols[i].name@ != name) ==> symbol_value(symbols, name) == 0,
    decreases symbols.len(),
{
    if symbols.len() > 0 {
        let pre = symbols.drop_last();
        lemma_symbol_lookup_exact_last(pre, name);
        let n = symbols.len() - 1;
        if symbols.last().name@ == name {
            assert(symbols[n].name@ == name);
        } else {
            assert forall|i: int| 0 <= i < pre.len() && #[trigger] pre[i].name@ == name implies symbols[i].name@ == name by {
                assert(pre[i] == symbols[i]);
            }
            if exists|i: int| 0 <= i < symbols.len() && #[trigger] symbols[i].name@ == name {
                let w = choose|i: int| 0 <= i < symbols.len() && #[trigger] symbols[i].name@ == name;
                assert(w < n);
                assert(pre[w] == symbols[w]);
                assert(pre[w].name@ == name);
                let i = choose|i: int| 0 <= i < pre.len() && #[trigger] pre[i].name@ == name
                    && symbol_value(pre, name) == pre[i].value as usize
                    && forall|j: int| i < j < pre.len() ==> #[trigger] pre[j].name@ != name;
                assert(symbols[i] == pre[i]);
                assert forall|j: int| i < j < symbols.len() implies #[trigger] symbols[j].name@ != name by {
                    if j < n {
                        assert(pre[j] == symbols[j]);
                    }
                }
            } else {
                assert forall|i: int| 0 <= i < pre.len() implies #[trigger] pre[i].name@ != name by {
                    assert(pre[i] == symbols[i]);
                }
            }
        }
    }
}

} // verus!
