//! Cascading style chains: append-only lookup of inheritable properties.

use vstd::prelude::*;

use crate::alignment::Align;

verus! {

/// The value bound to a style property.
#[derive(Clone, Copy, Debug, PartialEq, Eq, Structural, Hash)]
pub enum StyleValue {
    /// An alignment, such as the paragraph alignment.
    Alignment(Align),
}

/// One binding of a property key to a value.
#[derive(Clone, Copy, Debug, PartialEq, Eq, Structural, Hash)]
pub struct StyleEntry {
    /// The property key, drawn from the property registry.
    pub key: u64,
    /// The bound value.
    pub value: StyleValue,
}

/// Property key: the alignment paragraphs inside a node are set with.
pub const PAR_ALIGN: u64 = 1;

/// One scope of style properties, not yet linked into a chain.
#[derive(Debug, Hash)]
pub struct StyleMap {
    /// The bindings of this scope, in the order they were set.
    pub entries: Vec<StyleEntry>,
}

impl View for StyleMap {
    type V = Seq<StyleEntry>;

    open spec fn view(&self) -> Seq<StyleEntry> {
        self.entries@
    }
}

/// The first value bound to `key` in one scope, later bindings first.
pub open spec fn scope_get(entries: Seq<StyleEntry>, key: u64) -> Option<StyleValue>
    decreases entries,
{
    if entries.len() == 0 {
        None
    } else if entries.last().key == key {
        Some(entries.last().value)
    } else {
        scope_get(entries.drop_last(), key)
    }
}

/// The first value bound to `key` in a chain of scopes, walking from the
/// most specific scope (the head, index zero) towards the root.
pub open spec fn chain_get(scopes: Seq<Seq<StyleEntry>>, key: u64) -> Option<StyleValue>
    decreases scopes,
{
    if scopes.len() == 0 {
        None
    } else if scope_get(scopes.first(), key) is Some {
        scope_get(scopes.first(), key)
    } else {
        chain_get(scopes.drop_first(), key)
    }
}

impl StyleMap {
    /// Builds an empty scope.
    pub fn new() -> (r: StyleMap)
        ensures
            r@ == Seq::<StyleEntry>::empty(),
    {
        let r = StyleMap { entries: Vec::new() };
        proof {
            assert(r@ =~= Seq::<StyleEntry>::empty());
        }
        r
    }

    /// Binds `key` to `value` in this scope.  A later binding of the same key
    /// shadows an earlier one.
    pub fn set(&mut self, key: u64, value: StyleValue)
        ensures
            final(self)@ == old(self)@.push(StyleEntry { key, value }),
    {
        self.entries.push(StyleEntry { key, value });
    }

    /// The value this scope alone binds `key` to, if any.
    pub fn get(&self, key: u64) -> (r: Option<StyleValue>)
        ensures
            r == scope_get(self@, key),
    {
        let mut j: usize = self.entries.len();
        proof {
            assert(self@.subrange(0, self@.len() as int) =~= self@);
        }
        while j > 0
            invariant
                j <= self.entries.len(),
                scope_get(self@, key) == scope_get(self@.subrange(0, j as int), key),
            decreases j,
        {
            let e = self.entries[j - 1];
            proof {
                assert(self@.subrange(0, j as int).last() == e);
                assert(self@.subrange(0, j as int).drop_last() =~= self@.subrange(0, j - 1));
            }
            if e.key == key {
                return Some(e.value);
            }
            j = j - 1;
        }
        None
    }

    /// Links this scope in front of `parent`, returning the new chain.  The
    /// parent chain is not changed, so it stays shared across siblings.
    pub fn chain(self, parent: &StyleChain) -> (r: StyleChain)
        ensures
            r@ == seq![self@] + parent@,
    {
        let mut scopes: Vec<StyleMap> = Vec::new();
        scopes.push(self);
        let mut i: usize = 0;
        while i < parent.scopes.len()
            invariant
                i <= parent.scopes.len(),
                scopes@.len() == 1 + i,
                scopes@[0]@ == self@,
                forall|j: int| 1 <= j < scopes@.len() ==> (#[trigger] scopes@[j])@ == parent@[j - 1],
            decreases parent.scopes.len() - i,
        {
            let mut copy = StyleMap::new();
            let entries = &parent.scopes[i].entries;
            let mut k: usize = 0;
            while k < entries.len()
                invariant
                    k <= entries.len(),
                    copy@ == entries@.subrange(0, k as int),
                decreases entries.len() - k,
            {
                copy.set(entries[k].key, entries[k].value);
                proof {
                    assert(entries@.subrange(0, k as int).push(entries@[k as int]) =~= entries@
                        .subrange(0, k + 1));
                }
                k = k + 1;
            }
            proof {
                assert(entries@.subrange(0, entries@.len() as int) =~= entries@);
            }
            scopes.push(copy);
            i = i + 1;
        }
        let r = StyleChain { scopes };
        proof {
            assert(r@ =~= seq![self@] + parent@);
        }
        r
    }
}

/// The head scope wins: when the newly linked scope binds `key`, a lookup in
/// the combined chain returns that binding, whatever the parent holds.
pub proof fn lemma_chain_head_wins(
    scope: Seq<StyleEntry>,
    parent: Seq<Seq<StyleEntry>>,
    key: u64,
)
    requires
        scope_get(scope, key) is Some,
    ensures
        chain_get(seq![scope] + parent, key) == scope_get(scope, key),
{
    assert((seq![scope] + parent).first() == scope);
}

/// Linking a new head scope overrides only the keys that scope binds: for
/// every other key, lookup in the combined chain agrees with the parent
/// chain, so ancestors and siblings are unaffected.
pub proof fn lemma_chain_preserves_parent(
    scope: Seq<StyleEntry>,
    parent: Seq<Seq<StyleEntry>>,
    key: u64,
)
    requires
        scope_get(scope, key) is None,
    ensures
        chain_get(seq![scope] + parent, key) == chain_get(parent, key),
{
    assert((seq![scope] + parent).first() == scope);
    assert((seq![scope] + parent).drop_first() =~= parent);
}

/// An immutable, cascading sequence of scopes; lookup walks from the most
/// specific scope towards the root and the first match wins.  A node may only
/// link a new head scope in front; it can never change an ancestor scope.
#[derive(Debug, Hash)]
pub struct StyleChain {
    /// The scopes, most specific first.
    pub scopes: Vec<StyleMap>,
}

impl View for StyleChain {
    type V = Seq<Seq<StyleEntry>>;

    open spec fn view(&self) -> Seq<Seq<StyleEntry>> {
        Seq::new(self.scopes@.len(), |i: int| self.scopes@[i]@)
    }
}

impl StyleChain {
    /// The empty chain: the document defaults, with nothing overridden.
    pub fn root() -> (r: StyleChain)
        ensures
            r@ == Seq::<Seq<StyleEntry>>::empty(),
    {
        let r = StyleChain { scopes: Vec::new() };
        proof {
            assert(r@ =~= Seq::<Seq<StyleEntry>>::empty());
        }
        r
    }

    /// The first value bound to `key`, walking head to root; `None` when no
    /// scope binds it.
    pub fn get(&self, key: u64) -> (r: Option<StyleValue>)
        ensures
            r == chain_get(self@, key),
    {
        let mut i: usize = 0;
        proof {
            assert(self@.skip(0) =~= self@);
        }
        while i < self.scopes.len()
            invariant
                i <= self.scopes.len(),
                chain_get(self@, key) == chain_get(self@.skip(i as int), key),
            decreases self.scopes.len() - i,
        {
            let found = self.scopes[i].get(key);
            proof {
                assert(self@.skip(i as int).first() == self@[i as int]);
                assert(self@.skip(i as int).drop_first() =~= self@.skip(i + 1));
            }
            if let Some(v) = found {
                return Some(v);
            }
            i = i + 1;
        }
        proof {
            assert(self@.skip(self@.len() as int).len() == 0);
        }
        None
    }
}

} // verus!
