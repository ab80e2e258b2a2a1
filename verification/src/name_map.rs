//! Bidirectional mapping between original (descriptor-side) symbol names
//! and the possibly renamed wasm-side symbol names. All generator output
//! references wasm symbols through this map; with no renaming recorded it
//! acts as the identity.

use vstd::prelude::*;
use vstd::string::*;
use crate::text::str_eq;

verus! {

/// Rename an original name: the second component of the first pair whose
/// first component matches, or the name itself when no pair matches.
pub open spec fn rename(pairs: Seq<(String, String)>, n: Seq<char>) -> Seq<char>
    decreases pairs.len(),
{
    if pairs.len() == 0 {
        n
    } else if pairs[0].0@ == n {
        pairs[0].1@
    } else {
        rename(pairs.skip(1), n)
    }
}

/// Reverse lookup: the first component of the first pair whose second
/// component matches, or the name itself.
pub open spec fn unrename(pairs: Seq<(String, String)>, n: Seq<char>) -> Seq<char>
    decreases pairs.len(),
{
    if pairs.len() == 0 {
        n
    } else if pairs[0].1@ == n {
        pairs[0].0@
    } else {
        unrename(pairs.skip(1), n)
    }
}

/// Is `n` a recorded original name?
pub open spec fn has_orig(pairs: Seq<(String, String)>, n: Seq<char>) -> bool {
    exists|k: int| 0 <= k < pairs.len() && (#[trigger] pairs[k]).0@ == n
}

/// Is `n` a recorded renamed name?
pub open spec fn has_renamed(pairs: Seq<(String, String)>, n: Seq<char>) -> bool {
    exists|k: int| 0 <= k < pairs.len() && (#[trigger] pairs[k]).1@ == n
}

/// The pairs form a bijection: no original and no renamed name occurs
/// twice.
pub open spec fn pairs_wf(pairs: Seq<(String, String)>) -> bool {
    forall|k1: int, k2: int|
        0 <= k1 < pairs.len() && 0 <= k2 < pairs.len() && k1 != k2 ==> (#[trigger] pairs[k1]).0@
            != (#[trigger] pairs[k2]).0@ && pairs[k1].1@ != pairs[k2].1@
}

/// The rename tables for exports and for imports.
pub struct NameMapper {
    pub export_pairs: Vec<(String, String)>,
    pub import_pairs: Vec<(String, String)>,
}

/// A prefix of non-matching pairs does not change a forward lookup.
proof fn lemma_rename_skip(pairs: Seq<(String, String)>, n: Seq<char>, i: int)
    requires
        0 <= i <= pairs.len(),
        forall|j: int| 0 <= j < i ==> (#[trigger] pairs[j]).0@ != n,
    ensures
        rename(pairs, n) == rename(pairs.skip(i), n),
    decreases i,
{
    if i > 0 {
        lemma_rename_skip(pairs.skip(1), n, i - 1);
        assert(pairs.skip(1).skip(i - 1) =~= pairs.skip(i));
    } else {
        assert(pairs.skip(0) =~= pairs);
    }
}

/// A prefix of non-matching pairs does not change a reverse lookup.
proof fn lemma_unrename_skip(pairs: Seq<(String, String)>, n: Seq<char>, i: int)
    requires
        0 <= i <= pairs.len(),
        forall|j: int| 0 <= j < i ==> (#[trigger] pairs[j]).1@ != n,
    ensures
        unrename(pairs, n) == unrename(pairs.skip(i), n),
    decreases i,
{
    if i > 0 {
        lemma_unrename_skip(pairs.skip(1), n, i - 1);
        assert(pairs.skip(1).skip(i - 1) =~= pairs.skip(i));
    } else {
        assert(pairs.skip(0) =~= pairs);
    }
}

/// Forward lookup of a name the table holds lands on its pair.
proof fn lemma_rename_found(pairs: Seq<(String, String)>, n: Seq<char>)
    requires
        has_orig(pairs, n),
    ensures
        exists|k: int|
            0 <= k < pairs.len() && (#[trigger] pairs[k]).0@ == n && rename(pairs, n)
                == pairs[k].1@,
    decreases pairs.len(),
{
    if pairs[0].0@ == n {
        assert(pairs[0].0@ == n && rename(pairs, n) == pairs[0].1@);
    } else {
        let w = choose|k: int| 0 <= k < pairs.len() && (#[trigger] pairs[k]).0@ == n;
        assert(pairs.skip(1)[w - 1].0@ == n);
        lemma_rename_found(pairs.skip(1), n);
        let k = choose|k: int|
            0 <= k < pairs.skip(1).len() && (#[trigger] pairs.skip(1)[k]).0@ == n && rename(
                pairs.skip(1),
                n,
            ) == pairs.skip(1)[k].1@;
        assert(pairs[k + 1].0@ == n && rename(pairs, n) == pairs[k + 1].1@);
    }
}

/// Round-trip law: for every recorded original name, the reverse lookup
/// of its renamed form gives the original name back.
pub proof fn lemma_name_round_trip(pairs: Seq<(String, String)>, n: Seq<char>)
    requires
        pairs_wf(pairs),
        has_orig(pairs, n),
    ensures
        unrename(pairs, rename(pairs, n)) == n,
    decreases pairs.len(),
{
    if pairs[0].0@ == n {
        assert(rename(pairs, n) == pairs[0].1@);
        assert(unrename(pairs, pairs[0].1@) == pairs[0].0@);
    } else {
        let w = choose|k: int| 0 <= k < pairs.len() && (#[trigger] pairs[k]).0@ == n;
        assert(pairs.skip(1)[w - 1].0@ == n);
        assert(pairs_wf(pairs.skip(1))) by {
            assert forall|k1: int, k2: int|
                0 <= k1 < pairs.skip(1).len() && 0 <= k2 < pairs.skip(1).len() && k1 != k2 implies
                (#[trigger] pairs.skip(1)[k1]).0@ != (#[trigger] pairs.skip(1)[k2]).0@
                    && pairs.skip(1)[k1].1@ != pairs.skip(1)[k2].1@ by {
                assert(pairs[k1 + 1].0@ != pairs[k2 + 1].0@ && pairs[k1 + 1].1@ != pairs[k2
                    + 1].1@);
            }
        }
        lemma_name_round_trip(pairs.skip(1), n);
        lemma_rename_found(pairs.skip(1), n);
        let k = choose|k: int|
            0 <= k < pairs.skip(1).len() && (#[trigger] pairs.skip(1)[k]).0@ == n && rename(
                pairs.skip(1),
                n,
            ) == pairs.skip(1)[k].1@;
        assert(pairs[0].1@ != pairs[k + 1].1@);
        assert(rename(pairs, n) == rename(pairs.skip(1), n));
    }
}

/// Scan `pairs` for `name` among the originals and hand back the renamed
/// form, or `name` itself when it is not recorded.
fn lookup_forward(pairs: &Vec<(String, String)>, name: &str) -> (r: String)
    ensures
        r@ == rename(pairs@, name@),
{
    let mut i: usize = 0;
    while i < pairs.len()
        invariant
            i <= pairs@.len(),
            forall|j: int| 0 <= j < i ==> (#[trigger] pairs@[j]).0@ != name@,
        decreases pairs@.len() - i,
    {
        if str_eq(pairs[i].0.as_str(), name) {
            proof {
                lemma_rename_skip(pairs@, name@, i as int);
            }
            return pairs[i].1.clone();
        }
        i += 1;
    }
    proof {
        lemma_rename_skip(pairs@, name@, pairs@.len() as int);
    }
    name.to_owned()
}

/// Scan `pairs` for `name` among the renamed forms and hand back the
/// original, or `name` itself when it is not recorded.
fn lookup_backward(pairs: &Vec<(String, String)>, name: &str) -> (r: String)
    ensures
        r@ == unrename(pairs@, name@),
{
    let mut i: usize = 0;
    while i < pairs.len()
        invariant
            i <= pairs@.len(),
            forall|j: int| 0 <= j < i ==> (#[trigger] pairs@[j]).1@ != name@,
        decreases pairs@.len() - i,
    {
        if str_eq(pairs[i].1.as_str(), name) {
            proof {
                lemma_unrename_skip(pairs@, name@, i as int);
            }
            return pairs[i].0.clone();
        }
        i += 1;
    }
    proof {
        lemma_unrename_skip(pairs@, name@, pairs@.len() as int);
    }
    name.to_owned()
}

impl NameMapper {
    /// Both tables are bijections.
    pub open spec fn wf(self) -> bool {
        pairs_wf(self.export_pairs@) && pairs_wf(self.import_pairs@)
    }

    /// The identity mapping: nothing has been renamed.
    pub fn identity() -> (r: NameMapper)
        ensures
            r.wf(),
            r.export_pairs@ == Seq::<(String, String)>::empty(),
            r.import_pairs@ == Seq::<(String, String)>::empty(),
    {
        NameMapper { export_pairs: Vec::new(), import_pairs: Vec::new() }
    }

    /// Record one export rename; refused (with nothing changed) when the
    /// original or the renamed form is already taken.
    pub fn add_export_mapping(&mut self, orig: String, renamed: String) -> (ok: bool)
        ensures
            ok <==> (!has_orig(old(self).export_pairs@, orig@) && !has_renamed(
                old(self).export_pairs@,
                renamed@,
            )),
            ok ==> final(self).export_pairs@ == old(self).export_pairs@.push((orig, renamed)),
            !ok ==> final(self).export_pairs@ == old(self).export_pairs@,
            final(self).import_pairs@ == old(self).import_pairs@,
            old(self).wf() ==> final(self).wf(),
    {
        let mut i: usize = 0;
        while i < self.export_pairs.len()
            invariant
                i <= self.export_pairs@.len(),
                forall|j: int|
                    0 <= j < i ==> (#[trigger] self.export_pairs@[j]).0@ != orig@
                        && self.export_pairs@[j].1@ != renamed@,
            decreases self.export_pairs@.len() - i,
        {
            if str_eq(self.export_pairs[i].0.as_str(), orig.as_str()) || str_eq(
                self.export_pairs[i].1.as_str(),
                renamed.as_str(),
            ) {
                return false;
            }
            i += 1;
        }
        let ghost origv = orig@;
        let ghost renamedv = renamed@;
        self.export_pairs.push((orig, renamed));
        proof {
            let p = self.export_pairs@;
            if pairs_wf(old(self).export_pairs@) {
                assert forall|k1: int, k2: int|
                    0 <= k1 < p.len() && 0 <= k2 < p.len() && k1 != k2 implies (
                #[trigger] p[k1]).0@ != (#[trigger] p[k2]).0@ && p[k1].1@ != p[k2].1@ by {
                    if k1 == p.len() - 1 {
                        assert(p[k2].0@ != origv && p[k2].1@ != renamedv);
                    } else if k2 == p.len() - 1 {
                        assert(p[k1].0@ != origv && p[k1].1@ != renamedv);
                    }
                }
            }
        }
        true
    }

    /// Record one import rename, with the same refusal rule.
    pub fn add_import_mapping(&mut self, orig: String, renamed: String) -> (ok: bool)
        ensures
            ok <==> (!has_orig(old(self).import_pairs@, orig@) && !has_renamed(
                old(self).import_pairs@,
                renamed@,
            )),
            ok ==> final(self).import_pairs@ == old(self).import_pairs@.push((orig, renamed)),
            !ok ==> final(self).import_pairs@ == old(self).import_pairs@,
            final(self).export_pairs@ == old(self).export_pairs@,
            old(self).wf() ==> final(self).wf(),
    {
        let mut i: usize = 0;
        while i < self.import_pairs.len()
            invariant
                i <= self.import_pairs@.len(),
                forall|j: int|
                    0 <= j < i ==> (#[trigger] self.import_pairs@[j]).0@ != orig@
                        && self.import_pairs@[j].1@ != renamed@,
            decreases self.import_pairs@.len() - i,
        {
            if str_eq(self.import_pairs[i].0.as_str(), orig.as_str()) || str_eq(
                self.import_pairs[i].1.as_str(),
                renamed.as_str(),
            ) {
                return false;
            }
            i += 1;
        }
        let ghost origv = orig@;
        let ghost renamedv = renamed@;
        self.import_pairs.push((orig, renamed));
        proof {
            let p = self.import_pairs@;
            if pairs_wf(old(self).import_pairs@) {
                assert forall|k1: int, k2: int|
                    0 <= k1 < p.len() && 0 <= k2 < p.len() && k1 != k2 implies (
                #[trigger] p[k1]).0@ != (#[trigger] p[k2]).0@ && p[k1].1@ != p[k2].1@ by {
                    if k1 == p.len() - 1 {
                        assert(p[k2].0@ != origv && p[k2].1@ != renamedv);
                    } else if k2 == p.len() - 1 {
                        assert(p[k1].0@ != origv && p[k1].1@ != renamedv);
                    }
                }
            }
        }
        true
    }

    /// Wasm-side export symbol of an original name.
    pub fn export_name(&self, name: &str) -> (r: String)
        ensures
            r@ == rename(self.export_pairs@, name@),
    {
        lookup_forward(&self.export_pairs, name)
    }

    /// Wasm-side import symbol of an original name.
    pub fn import_name(&self, name: &str) -> (r: String)
        ensures
            r@ == rename(self.import_pairs@, name@),
    {
        lookup_forward(&self.import_pairs, name)
    }

    /// Original name of a wasm-side export symbol.
    pub fn orig_export_name(&self, name: &str) -> (r: String)
        ensures
            r@ == unrename(self.export_pairs@, name@),
    {
        lookup_backward(&self.export_pairs, name)
    }

    /// Original name of a wasm-side import symbol.
    pub fn orig_import_name(&self, name: &str) -> (r: String)
        ensures
            r@ == unrename(self.import_pairs@, name@),
    {
        lookup_backward(&self.import_pairs, name)
    }
}

} // verus!
