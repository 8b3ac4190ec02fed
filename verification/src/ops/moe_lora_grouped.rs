//! Dense per-expert adapter tables for the grouped down fold.
use crate::device::Scalar;
use vstd::prelude::*;

verus! {

/// An adapted expert: its id, the addresses of its two tensors, and its scale.
pub type ExpertEntry = (u16, u64, u64, Scalar);

/// Addresses and scales by expert id. Experts without an adapter are zero.
#[derive(Debug, PartialEq, Eq)]
pub struct ExpertTables {
    pub a: Vec<u64>,
    pub b: Vec<u64>,
    pub scale: Vec<Scalar>,
    pub n_experts: u32,
}

/// Largest expert id among the first `n` entries.
pub open spec fn max_expert(entries: Seq<ExpertEntry>, n: nat) -> int
    decreases n,
{
    if n == 0 {
        -1
    } else {
        crate::num::max_int(max_expert(entries, (n - 1) as nat), entries[n - 1].0 as int)
    }
}

/// Last of the first `n` entries for expert `e`.
pub open spec fn entry_for(entries: Seq<ExpertEntry>, e: int, n: nat) -> Option<ExpertEntry>
    decreases n,
{
    if n == 0 {
        None
    } else if entries[n - 1].0 == e {
        Some(entries[n - 1])
    } else {
        entry_for(entries, e, (n - 1) as nat)
    }
}

impl ExpertTables {
    /// The table's row for expert `e`.
    pub open spec fn row(&self, e: int) -> (u64, u64, Scalar) {
        (self.a@[e], self.b@[e], self.scale@[e])
    }
}

/// The row that an entry stands for, zero without one.
pub open spec fn row_of(entry: Option<ExpertEntry>) -> (u64, u64, Scalar) {
    match entry {
        Some(x) => (x.1, x.2, x.3),
        None => (0, 0, Scalar(0)),
    }
}

proof fn lemma_max_expert(entries: Seq<ExpertEntry>, n: nat)
    requires
        n <= entries.len(),
    ensures
        -1 <= max_expert(entries, n) <= 0xffff,
        n > 0 ==> max_expert(entries, n) >= 0,
        forall|i: int| 0 <= i < n ==> (#[trigger] entries[i]).0 <= max_expert(entries, n),
    decreases n,
{
    if n > 0 {
        lemma_max_expert(entries, (n - 1) as nat);
    }
}

/// Packs adapted experts into tables indexed by expert id, up to the largest id
/// that occurs. Without any there are no tables.
pub fn pack_expert_tables(entries: &[ExpertEntry]) -> (r: Option<ExpertTables>)
    ensures
        r is None <==> entries@.len() == 0,
        r matches Some(t) ==> {
            &&& t.n_experts == max_expert(entries@, entries@.len()) + 1
            &&& t.a@.len() == t.n_experts
            &&& t.b@.len() == t.n_experts
            &&& t.scale@.len() == t.n_experts
            &&& forall|e: int|
                0 <= e < t.n_experts ==> #[trigger] t.row(e) == row_of(
                    entry_for(entries@, e, entries@.len()),
                )
        },
{
    let n: usize = entries.len();
    if n == 0 {
        return None;
    }
    let mut top: u16 = 0;
    let mut i: usize = 0;
    while i < n
        invariant
            i <= n,
            n == entries@.len(),
            i == 0 ==> top == 0,
            i > 0 ==> top == max_expert(entries@, i as nat),
        decreases n - i,
    {
        proof {
            lemma_max_expert(entries@, i as nat);
        }
        if entries[i].0 > top {
            top = entries[i].0;
        }
        i = i + 1;
    }
    proof {
        lemma_max_expert(entries@, n as nat);
    }
    let len: u32 = top as u32 + 1;
    let mut t = ExpertTables { a: Vec::new(), b: Vec::new(), scale: Vec::new(), n_experts: len };
    let mut j: u32 = 0;
    while j < len
        invariant
            j <= len,
            t.n_experts == len,
            t.a@.len() == j,
            t.b@.len() == j,
            t.scale@.len() == j,
            forall|e: int| 0 <= e < j ==> #[trigger] t.row(e) == row_of(entry_for(entries@, e, 0)),
        decreases len - j,
    {
        let ghost was = t;
        t.a.push(0);
        t.b.push(0);
        t.scale.push(Scalar(0));
        j = j + 1;
        proof {
            assert forall|e: int| 0 <= e < j implies #[trigger] t.row(e) == row_of(
                entry_for(entries@, e, 0),
            ) by {
                if e < j - 1 {
                    assert(t.row(e) == was.row(e));
                }
            }
        }
    }
    let mut k: usize = 0;
    while k < n
        invariant
            k <= n,
            n == entries@.len(),
            t.n_experts == len,
            len == max_expert(entries@, n as nat) + 1,
            t.a@.len() == len,
            t.b@.len() == len,
            t.scale@.len() == len,
            forall|i: int| 0 <= i < n ==> (#[trigger] entries@[i]).0 < len,
            forall|e: int|
                0 <= e < len ==> #[trigger] t.row(e) == row_of(entry_for(entries@, e, k as nat)),
        decreases n - k,
    {
        let x: ExpertEntry = entries[k];
        let ghost was = t;
        t.a.set(x.0 as usize, x.1);
        t.b.set(x.0 as usize, x.2);
        t.scale.set(x.0 as usize, x.3);
        k = k + 1;
        proof {
            assert forall|e: int| 0 <= e < len implies #[trigger] t.row(e) == row_of(
                entry_for(entries@, e, k as nat),
            ) by {
                assert(was.row(e) == row_of(entry_for(entries@, e, (k - 1) as nat)));
                if e != x.0 {
                    assert(t.row(e) == was.row(e));
                }
            }
        }
    }
    Some(t)
}

/// With one entry per expert the tables do not depend on the entries' order:
/// whichever place an entry has, its expert's row is that entry.
pub proof fn law_order_does_not_matter(entries: Seq<ExpertEntry>, i: int)
    requires
        0 <= i < entries.len(),
        forall|a: int, b: int|
            0 <= a < b < entries.len() ==> (#[trigger] entries[a]).0 != (#[trigger] entries[b]).0,
    ensures
        entry_for(entries, entries[i].0 as int, entries.len()) == Some(entries[i]),
{
    lemma_entry_found(entries, i, entries.len());
}

proof fn lemma_entry_found(entries: Seq<ExpertEntry>, i: int, n: nat)
    requires
        0 <= i < n <= entries.len(),
        forall|a: int, b: int|
            0 <= a < b < entries.len() ==> (#[trigger] entries[a]).0 != (#[trigger] entries[b]).0,
    ensures
        entry_for(entries, entries[i].0 as int, n) == Some(entries[i]),
    decreases n,
{
    if i < n - 1 {
        assert(entries[i].0 != entries[n - 1].0);
        lemma_entry_found(entries, i, (n - 1) as nat);
    }
}

} // verus!
