//! The type table: the symbols of every block, and the stack of the blocks
//! that are open.

use std::collections::HashMap;
use vec_map::VecMap;
use vstd::prelude::*;
use vstd::slice::*;
use vstd::std_specs::hash::*;
use crate::tokens::{Identifier, Node, SourcePos};

verus! {

broadcast use vstd::std_specs::hash::group_hash_axioms;

/// The map type of the crate `vec_map`: from small integer keys to values,
/// backed by a vector as long as the largest key.
#[verifier::external_type_specification]
#[verifier::external_body]
#[verifier::reject_recursive_types(V)]
pub struct ExVecMap<V>(VecMap<V>);

/// The source index of the opening brace that defines the start of a scope.
pub type BlockPos = usize;

/// Keys of a symbol map stay below this limit: the map's storage is as long
/// as its largest key.
pub const KEY_LIMIT: usize = 0x10_0000;

#[derive(Copy, Clone, Debug, PartialEq, Eq, Structural)]
pub enum Type {
    Number,
    Boolean,
    Function(Identifier),
    /// The type of a symbol whose own definition is still being resolved.
    /// It is a placeholder and never a final type.
    Indeterminate,
}

impl Type {
    /// The name of the type.
    pub open spec fn spec_name(self) -> Seq<char> {
        match self {
            Type::Number => "Number"@,
            Type::Boolean => "Boolean"@,
            Type::Function(_) => "Function"@,
            Type::Indeterminate => "Indeterminate"@,
        }
    }

    pub fn name(&self) -> (r: &'static str)
        ensures
            r@ == self.spec_name(),
    {
        match *self {
            Type::Number => "Number",
            Type::Boolean => "Boolean",
            Type::Function(_) => "Function",
            Type::Indeterminate => "Indeterminate",
        }
    }

    /// True for every type that may be reported.
    pub fn is_final(&self) -> (r: bool)
        ensures
            r == !(*self is Indeterminate),
    {
        match *self {
            Type::Indeterminate => false,
            _ => true,
        }
    }
}

/// A declared name: the blocks that were open where it was declared, its
/// identifier, the place of its declaration, and its type once resolved.
#[derive(Clone, Debug)]
pub struct Symbol {
    pub scope: Vec<BlockPos>,
    pub id: Identifier,
    pub pos: SourcePos,
    pub ty: Option<Type>,
}

pub struct SymbolView {
    pub scope: Seq<BlockPos>,
    pub id: Identifier,
    pub pos: SourcePos,
    pub ty: Option<Type>,
}

impl View for Symbol {
    type V = SymbolView;

    open spec fn view(&self) -> SymbolView {
        SymbolView { scope: self.scope@, id: self.id, pos: self.pos, ty: self.ty }
    }
}

/// The type of a function: the types of its arguments by identifier, and
/// the type of its result.
#[derive(Debug)]
pub struct FunctionType {
    pub args: VecMap<Type>,
    pub result: Type,
}

impl FunctionType {
    pub fn new(args: VecMap<Type>, result: Type) -> (r: FunctionType)
        ensures
            r.args == args,
            r.result == result,
    {
        FunctionType { args: args, result: result }
    }
}

/// The entries of a symbol map: which identifiers it holds, and the symbol
/// of each.
pub uninterp spec fn symbol_entries(m: VecMap<Symbol>) -> Map<usize, SymbolView>;

/// A symbol map without entries.
pub open spec fn no_symbols() -> Map<usize, SymbolView> {
    Map::empty()
}

/// `VecMap::new`: the map it makes has no entry.
#[verifier::external_body]
fn symbols_new() -> (r: VecMap<Symbol>)
    ensures
        symbol_entries(r) == no_symbols(),
{
    VecMap::new()
}

/// `VecMap::get`: the value under `key`, or nothing where the map has no
/// entry for it.
#[verifier::external_body]
fn symbols_get(m: &VecMap<Symbol>, key: usize) -> (r: Option<&Symbol>)
    ensures
        match r {
            Some(symbol) => symbol_entries(*m).contains_key(key) && symbol@ == symbol_entries(
                *m,
            )[key],
            None => !symbol_entries(*m).contains_key(key),
        },
{
    m.get(key)
}

/// `VecMap::insert`: afterwards the map holds `value` under `key` and is
/// otherwise unchanged; the value that `key` had before is handed back. The
/// map allocates a slot for every key up to `key`, so large keys are left out.
#[verifier::external_body]
fn symbols_insert(m: &mut VecMap<Symbol>, key: usize, value: Symbol) -> (r: Option<Symbol>)
    requires
        key < KEY_LIMIT,
    ensures
        symbol_entries(*final(m)) == symbol_entries(*old(m)).insert(key, value@),
        match r {
            Some(symbol) => symbol_entries(*old(m)).contains_key(key) && symbol@
                == symbol_entries(*old(m))[key],
            None => !symbol_entries(*old(m)).contains_key(key),
        },
{
    m.insert(key, value)
}

/// Sum of the numbers.
pub open spec fn total(lengths: Seq<usize>) -> int
    decreases lengths.len(),
{
    if lengths.len() == 0 {
        0
    } else {
        total(lengths.drop_last()) + lengths.last()
    }
}

/// A sum of lengths is not negative.
pub proof fn lemma_total_bounds(lengths: Seq<usize>)
    ensures
        total(lengths) >= 0,
        lengths.len() > 0 ==> total(lengths) >= lengths.last(),
    decreases lengths.len(),
{
    if lengths.len() > 0 {
        lemma_total_bounds(lengths.drop_last());
    }
}

/// The type table as a mathematical value.
pub struct TableView {
    /// For each block that has symbols, its symbols by identifier.
    pub symbols: Map<BlockPos, Map<Identifier, SymbolView>>,
    /// The open blocks, outermost first.
    pub scope: Seq<BlockPos>,
    /// How many blocks each entering added to `scope`; the first entry
    /// stands for the outermost block and is 0.
    pub lengths: Seq<usize>,
}

impl TableView {
    /// The stack of open blocks is made of the outermost block, which is
    /// block 0 and stays at the bottom, and of what each entering added.
    pub open spec fn wf(self) -> bool {
        &&& self.lengths.len() >= 1
        &&& self.scope.len() == 1 + total(self.lengths)
        &&& self.scope[0] == 0
    }

    /// The symbols of a block; none for a block that the table has not seen.
    pub open spec fn block(self, key: BlockPos) -> Map<Identifier, SymbolView> {
        if self.symbols.contains_key(key) {
            self.symbols[key]
        } else {
            Map::empty()
        }
    }

    /// The first symbol for `id` on the way outwards through `scope`,
    /// starting `depth` blocks above the innermost, and the number of
    /// blocks between the innermost block and the one that holds it.
    pub open spec fn lookup_from(self, scope: Seq<BlockPos>, id: Identifier, depth: int) -> Option<
        (SymbolView, usize),
    >
        decreases scope.len() - depth,
    {
        if depth < 0 || depth >= scope.len() {
            None
        } else if self.block(scope[scope.len() - 1 - depth]).contains_key(id) {
            Some((self.block(scope[scope.len() - 1 - depth])[id], depth as usize))
        } else {
            self.lookup_from(scope, id, depth + 1)
        }
    }

    /// The symbol that `id` resolves to in a stack of blocks.
    pub open spec fn lookup_within(self, scope: Seq<BlockPos>, id: Identifier) -> Option<
        (SymbolView, usize),
    > {
        self.lookup_from(scope, id, 0)
    }

    /// The symbol that `id` resolves to in the open blocks.
    pub open spec fn lookup(self, id: Identifier) -> Option<(SymbolView, usize)> {
        self.lookup_within(self.scope, id)
    }

    pub open spec fn enter_scope(self, chain: Seq<BlockPos>) -> TableView {
        TableView {
            symbols: self.symbols,
            scope: self.scope + chain,
            lengths: self.lengths.push(chain.len() as usize),
        }
    }

    pub open spec fn enter_block(self, key: BlockPos) -> TableView {
        TableView {
            symbols: if self.symbols.contains_key(key) {
                self.symbols
            } else {
                self.symbols.insert(key, Map::empty())
            },
            scope: self.scope.push(key),
            lengths: self.lengths.push(1),
        }
    }

    pub open spec fn leave_block(self) -> TableView {
        TableView {
            symbols: self.symbols,
            scope: self.scope.take(self.scope.len() - self.lengths.last()),
            lengths: self.lengths.drop_last(),
        }
    }

    /// The symbol that `set_type` leaves for `id` in a block: the one that
    /// is there, with the new type; or a new one, declared at `pos` with the
    /// open blocks as its scope.
    pub open spec fn typed_symbol(self, id: Identifier, pos: SourcePos, ty: Option<Type>) -> SymbolView {
        let here = self.block(self.scope.last());
        if here.contains_key(id) {
            SymbolView { ty: ty, ..here[id] }
        } else {
            SymbolView { scope: self.scope, id: id, pos: pos, ty: ty }
        }
    }

    pub open spec fn set_type(self, id: Identifier, pos: SourcePos, ty: Option<Type>) -> TableView {
        TableView {
            symbols: self.symbols.insert(
                self.scope.last(),
                self.block(self.scope.last()).insert(id, self.typed_symbol(id, pos, ty)),
            ),
            scope: self.scope,
            lengths: self.lengths,
        }
    }
}

/// What a lookup finds lies in the nearest block that holds the
/// identifier, and it finds nothing only where no block of the stack holds it.
pub proof fn lemma_lookup_from(t: TableView, scope: Seq<BlockPos>, id: Identifier, depth: int)
    requires
        0 <= depth,
        scope.len() <= usize::MAX,
    ensures
        match t.lookup_from(scope, id, depth) {
            Some((symbol, d)) => {
                &&& depth <= d < scope.len()
                &&& t.block(scope[scope.len() - 1 - d]).contains_key(id)
                &&& symbol == t.block(scope[scope.len() - 1 - d])[id]
                &&& forall|k: int|
                    depth <= k < d ==> !t.block(#[trigger] scope[scope.len() - 1 - k]).contains_key(
                        id,
                    )
            },
            None => forall|k: int|
                depth <= k < scope.len() ==> !t.block(
                    #[trigger] scope[scope.len() - 1 - k],
                ).contains_key(id),
        },
    decreases scope.len() - depth,
{
    if depth < scope.len() && !t.block(scope[scope.len() - 1 - depth]).contains_key(id) {
        lemma_lookup_from(t, scope, id, depth + 1);
        match t.lookup_from(scope, id, depth) {
            Some((symbol, d)) => {
                assert forall|k: int| depth <= k < d implies !t.block(
                    #[trigger] scope[scope.len() - 1 - k],
                ).contains_key(id) by {
                    if k > depth {
                    }
                }
            },
            None => {
                assert forall|k: int| depth <= k < scope.len() implies !t.block(
                    #[trigger] scope[scope.len() - 1 - k],
                ).contains_key(id) by {
                    if k > depth {
                    }
                }
            },
        }
    }
}

/// Lookups through a stack do not depend on blocks that are not on it.
pub proof fn lemma_lookup_ignores_other_blocks(
    t: TableView,
    u: TableView,
    scope: Seq<BlockPos>,
    id: Identifier,
    depth: int,
)
    requires
        0 <= depth,
        forall|k: int| 0 <= k < scope.len() ==> t.block(#[trigger] scope[k]) == u.block(scope[k]),
    ensures
        t.lookup_from(scope, id, depth) == u.lookup_from(scope, id, depth),
    decreases scope.len() - depth,
{
    if depth < scope.len() {
        let b = scope[scope.len() - 1 - depth];
        assert(t.block(b) == u.block(b));
        if !t.block(b).contains_key(id) {
            lemma_lookup_ignores_other_blocks(t, u, scope, id, depth + 1);
        }
    }
}

/// Entering a block and leaving it again gives back the stack of open
/// blocks.
pub proof fn lemma_enter_leave(t: TableView, key: BlockPos)
    requires
        t.wf(),
    ensures
        t.enter_block(key).wf(),
        t.enter_block(key).leave_block().scope == t.scope,
        t.enter_block(key).leave_block().lengths == t.lengths,
        t.enter_block(key).leave_block().wf(),
{
    let e = t.enter_block(key);
    lemma_total_bounds(t.lengths);
    assert(e.lengths.drop_last() =~= t.lengths);
    assert(e.scope.take(e.scope.len() - 1) =~= t.scope);
}

/// Entering a chain of blocks and leaving again gives back the stack of
/// open blocks: one leave removes as many blocks as the entering added.
pub proof fn lemma_enter_scope_leave(t: TableView, chain: Seq<BlockPos>)
    requires
        t.wf(),
        chain.len() <= usize::MAX,
    ensures
        t.enter_scope(chain).wf(),
        t.enter_scope(chain).leave_block().scope == t.scope,
        t.enter_scope(chain).leave_block().lengths == t.lengths,
        t.enter_scope(chain).leave_block().symbols == t.symbols,
{
    let e = t.enter_scope(chain);
    lemma_total_bounds(t.lengths);
    assert(e.lengths.drop_last() =~= t.lengths);
    assert(e.scope.take(e.scope.len() - chain.len()) =~= t.scope);
}

/// Shadowing: a declaration in an inner block hides an outer symbol of the
/// same name while the block is open, and the outer symbol is found again,
/// unchanged, once the block is left. The inner block must not be one of
/// the blocks that are already open.
pub proof fn lemma_shadowing(
    t: TableView,
    key: BlockPos,
    id: Identifier,
    pos: SourcePos,
    ty: Option<Type>,
)
    requires
        t.wf(),
        !t.scope.contains(key),
    ensures
        t.enter_block(key).set_type(id, pos, ty).lookup(id) matches Some((symbol, depth))
            && depth == 0 && symbol.ty == ty,
        t.enter_block(key).set_type(id, pos, ty).leave_block().lookup(id) == t.lookup(id),
        t.enter_block(key).set_type(id, pos, ty).leave_block().scope == t.scope,
{
    let entered = t.enter_block(key);
    let inner = entered.set_type(id, pos, ty);
    lemma_enter_leave(t, key);
    assert(inner.scope.last() == key);
    assert(inner.block(key).contains_key(id));
    let left = inner.leave_block();
    assert(left.scope =~= t.scope);
    assert forall|k: int| 0 <= k < t.scope.len() implies left.block(#[trigger] t.scope[k])
        == t.block(t.scope[k]) by {
        assert(t.scope.contains(t.scope[k]));
        assert(t.scope[k] != key);
    }
    lemma_lookup_ignores_other_blocks(left, t, t.scope, id, 0);
}

#[derive(Debug)]
pub struct TypeTable {
    symbols: HashMap<BlockPos, VecMap<Symbol>>,
    scope: Vec<BlockPos>,
    scope_lengths: Vec<usize>,
}

impl View for TypeTable {
    type V = TableView;

    closed spec fn view(&self) -> TableView {
        TableView {
            symbols: Map::new(
                |k: BlockPos| self.symbols@.contains_key(k),
                |k: BlockPos| symbol_entries(self.symbols@[k]),
            ),
            scope: self.scope@,
            lengths: self.scope_lengths@,
        }
    }
}

impl TypeTable {
    /// The table holds what its stacks promise.
    pub open spec fn wf(&self) -> bool {
        self@.wf()
    }

    /// A table with the outermost block, block 0, open and empty.
    pub fn new() -> (r: TypeTable)
        ensures
            r.wf(),
            r@.scope == seq![0usize],
            r@.lengths == seq![0usize],
            r@.symbols == Map::<BlockPos, Map<Identifier, SymbolView>>::empty().insert(
                0,
                Map::empty(),
            ),
    {
        let mut symbols: HashMap<BlockPos, VecMap<Symbol>> = HashMap::new();
        symbols.insert(0, symbols_new());
        let mut scope: Vec<BlockPos> = Vec::new();
        scope.push(0);
        let mut scope_lengths: Vec<usize> = Vec::new();
        scope_lengths.push(0);
        let r = TypeTable { symbols: symbols, scope: scope, scope_lengths: scope_lengths };
        proof {
            assert(r@.scope =~= seq![0usize]);
            assert(r@.lengths =~= seq![0usize]);
            assert(r@.symbols =~= Map::<BlockPos, Map<Identifier, SymbolView>>::empty().insert(
                0,
                Map::empty(),
            ));
            assert(r@.lengths.drop_last() =~= Seq::<usize>::empty());
            assert(total(r@.lengths) == 0) by {
                reveal_with_fuel(total, 2);
            }
        }
        r
    }

    /// Opens a chain of blocks at once. One `leave_block` closes them all.
    pub fn enter_scope(&mut self, scope: &[BlockPos])
        requires
            old(self).wf(),
        ensures
            final(self).wf(),
            final(self)@ == old(self)@.enter_scope(scope@),
    {
        let mut i: usize = 0;
        while i < scope.len()
            invariant
                i <= scope@.len(),
                self.symbols == old(self).symbols,
                self.scope_lengths == old(self).scope_lengths,
                self.scope@ == old(self).scope@ + scope@.take(i as int),
            decreases scope@.len() - i,
        {
            self.scope.push(scope[i]);
            proof {
                assert(scope@.take(i + 1) =~= scope@.take(i as int).push(scope@[i as int]));
                assert(self.scope@ =~= old(self).scope@ + scope@.take(i + 1));
            }
            i += 1;
        }
        self.scope_lengths.push(scope.len());
        proof {
            lemma_total_bounds(old(self)@.lengths);
            assert(scope@.take(i as int) =~= scope@);
            assert(self@.symbols =~= old(self)@.symbols);
            assert(self@.lengths.drop_last() =~= old(self)@.lengths);
        }
    }

    /// Opens one block.
    pub fn enter_block(&mut self, scope: BlockPos)
        requires
            old(self).wf(),
        ensures
            final(self).wf(),
            final(self)@ == old(self)@.enter_block(scope),
    {
        self.scope.push(scope);
        self.scope_lengths.push(1);
        if !self.symbols.contains_key(&scope) {
            self.symbols.insert(scope, symbols_new());
        }
        proof {
            lemma_total_bounds(old(self)@.lengths);
            assert(self@.symbols =~= old(self)@.enter_block(scope).symbols);
            assert(self@.lengths.drop_last() =~= old(self)@.lengths);
        }
    }

    /// Closes what the last entering opened. The outermost block is never
    /// closed.
    pub fn leave_block(&mut self)
        requires
            old(self).wf(),
            old(self)@.lengths.len() > 1,
        ensures
            final(self).wf(),
            final(self)@ == old(self)@.leave_block(),
    {
        let count = self.scope_lengths[self.scope_lengths.len() - 1];
        proof {
            lemma_total_bounds(self.scope_lengths@);
            lemma_total_bounds(self.scope_lengths@.drop_last());
        }
        self.scope_lengths.pop();
        let keep = self.scope.len() - count;
        self.scope.truncate(keep);
        proof {
            assert(self@.symbols =~= old(self)@.symbols);
            assert(self@.scope =~= old(self)@.scope.take(keep as int));
        }
    }

    /// How many enterings are still open, counting the outermost block as
    /// one: `leave_block` may be called while this is more than one.
    pub fn levels(&self) -> (r: usize)
        ensures
            r == self@.lengths.len(),
    {
        self.scope_lengths.len()
    }

    /// True when the block is one of the open blocks.
    pub fn has_scope_cycle(&self, pos: BlockPos) -> (r: bool)
        ensures
            r == self@.scope.contains(pos),
    {
        let mut i: usize = 0;
        while i < self.scope.len()
            invariant
                i <= self.scope@.len(),
                forall|j: int| 0 <= j < i ==> self.scope@[j] != pos,
            decreases self.scope@.len() - i,
        {
            if self.scope[i] == pos {
                return true;
            }
            i += 1;
        }
        false
    }

    /// The open blocks, outermost first.
    pub fn get_scope<'a>(&'a self) -> (r: &'a [BlockPos])
        ensures
            r@ == self@.scope,
    {
        self.scope.as_slice()
    }

    /// Sets the type of `id` in the innermost open block. A symbol of the
    /// same name in an outer block is left as it is.
    pub fn set_type(&mut self, id: Node<Identifier>, ty: Option<Type>)
        requires
            old(self).wf(),
            id.0 < KEY_LIMIT,
        ensures
            final(self).wf(),
            final(self)@ == old(self)@.set_type(id.0, id.1, ty),
    {
        proof {
            lemma_total_bounds(self.scope_lengths@);
        }
        let block = self.scope[self.scope.len() - 1];
        let mut entries = match self.symbols.remove(&block) {
            Some(m) => m,
            None => symbols_new(),
        };
        let ghost before = symbol_entries(entries);
        let fresh = Symbol {
            scope: slice_to_vec(self.scope.as_slice()),
            id: id.0,
            pos: id.1,
            ty: ty,
        };
        match symbols_insert(&mut entries, id.0, fresh) {
            Some(earlier) => {
                let updated = Symbol {
                    scope: earlier.scope,
                    id: earlier.id,
                    pos: earlier.pos,
                    ty: ty,
                };
                symbols_insert(&mut entries, id.0, updated);
            },
            None => {},
        }
        proof {
            assert(before == old(self)@.block(block));
            assert(symbol_entries(entries) =~= before.insert(
                id.0,
                old(self)@.typed_symbol(id.0, id.1, ty),
            ));
        }
        self.symbols.insert(block, entries);
        proof {
            assert(self@.symbols =~= old(self)@.set_type(id.0, id.1, ty).symbols);
        }
    }

    /// The symbol that `id` resolves to in the open blocks, and the number
    /// of blocks between the innermost block and the one that holds it.
    pub fn get_symbol(&self, id: Identifier) -> (r: Option<(&Symbol, usize)>)
        ensures
            match r {
                Some((symbol, depth)) => self@.lookup(id) == Some((symbol@, depth)),
                None => self@.lookup(id) is None,
            },
    {
        self.get_symbol_within(self.scope.as_slice(), id)
    }

    /// The same search through a stack of blocks that the caller names.
    pub fn get_symbol_within(&self, scope: &[BlockPos], id: Identifier) -> (r: Option<
        (&Symbol, usize),
    >)
        ensures
            match r {
                Some((symbol, depth)) => self@.lookup_within(scope@, id) == Some(
                    (symbol@, depth),
                ),
                None => self@.lookup_within(scope@, id) is None,
            },
    {
        let mut depth: usize = 0;
        while depth < scope.len()
            invariant
                depth <= scope@.len(),
                self@.lookup_within(scope@, id) == self@.lookup_from(scope@, id, depth as int),
            decreases scope@.len() - depth,
        {
            let block = scope[scope.len() - 1 - depth];
            match self.symbols.get(&block) {
                Some(entries) => {
                    match symbols_get(entries, id) {
                        Some(symbol) => {
                            return Some((symbol, depth));
                        },
                        None => {},
                    }
                },
                None => {},
            }
            depth += 1;
        }
        None
    }
}

} // verus!
