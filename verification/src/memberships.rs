//! Which chunks hold which code units: an ordered map from code units to
//! ordered sets of chunk ids.

use indexmap::IndexSet;
use vstd::prelude::*;

use crate::ordered::handle_items;
use crate::ordered::handle_list;
use crate::ordered::insert_handle;
use crate::ordered::insert_text;
use crate::ordered::inserted;
use crate::ordered::keys;
use crate::ordered::lemma_inserted_no_duplicates;
use crate::ordered::new_handle_set;
use crate::ordered::new_text_set;
use crate::ordered::text_items;
use crate::ordered::text_list;

verus! {

/// For each code unit met so far, in the order of first meeting, the ids of
/// the chunks that hold it, in the order of first holding.
pub type Memberships = Seq<(usize, Seq<Seq<char>>)>;

/// The memberships after `unit` was met in the chunk `chunk`.
pub open spec fn with_membership(held: Memberships, unit: usize, chunk: Seq<char>) -> Memberships {
    if keys(held).contains(unit) {
        Seq::new(
            held.len(),
            |k: int|
                if held[k].0 == unit {
                    (unit, inserted(held[k].1, chunk))
                } else {
                    held[k]
                },
        )
    } else {
        held.push((unit, seq![chunk]))
    }
}

/// The memberships after each of `units`, in order, was met in the chunk
/// `chunk`.
pub open spec fn with_memberships(held: Memberships, units: Seq<usize>, chunk: Seq<char>) -> Memberships
    decreases units.len(),
{
    if units.len() == 0 {
        held
    } else {
        with_membership(with_memberships(held, units.drop_last(), chunk), units.last(), chunk)
    }
}

/// An ordered map from code units to the ordered set of the chunks that hold
/// them.
pub struct UnitMemberships {
    units: IndexSet<usize>,
    chunks: Vec<IndexSet<String>>,
}

impl View for UnitMemberships {
    type V = Memberships;

    closed spec fn view(&self) -> Memberships {
        Seq::new(
            handle_items(self.units).len(),
            |k: int| (handle_items(self.units)[k], text_items(self.chunks@[k])),
        )
    }
}

impl UnitMemberships {
    /// Each code unit has one entry, and one set of chunks.
    pub closed spec fn wf(&self) -> bool {
        &&& self.chunks@.len() == handle_items(self.units).len()
        &&& handle_items(self.units).no_duplicates()
    }

    /// A map without entries.
    pub fn new() -> (out: Self)
        ensures
            out.wf(),
            out@ == Seq::<(usize, Seq<Seq<char>>)>::empty(),
    {
        let out = UnitMemberships { units: new_handle_set(), chunks: Vec::new() };
        assert(out@ =~= Seq::<(usize, Seq<Seq<char>>)>::empty());
        out
    }

    /// Notes that the chunk `chunk` holds `unit`.
    pub fn record(&mut self, unit: usize, chunk: String)
        requires
            old(self).wf(),
        ensures
            final(self).wf(),
            final(self)@ == with_membership(old(self)@, unit, chunk@),
    {
        let ghost before = self@;
        let ghost units_before = handle_items(self.units);
        let ghost chunks_before = self.chunks@;
        assert(keys(before) =~= units_before);
        let (k, fresh) = insert_handle(&mut self.units, unit);
        if fresh {
            self.chunks.push(new_text_set());
        }
        let ghost chunks_between = self.chunks@;
        insert_text(&mut self.chunks[k], chunk);
        proof {
            lemma_inserted_no_duplicates(units_before, unit);
            let after = self@;
            let expected = with_membership(before, unit, chunk@);
            assert(after.len() == expected.len());
            assert forall|j: int| 0 <= j < after.len() implies after[j] == expected[j] by {
                if fresh {
                    if j == k {
                        assert(text_items(chunks_between[j]) =~= Seq::<Seq<char>>::empty());
                        assert(inserted(Seq::<Seq<char>>::empty(), chunk@) =~= seq![chunk@]);
                    } else {
                        assert(self.chunks@[j] == chunks_before[j]);
                    }
                } else {
                    if j == k {
                    } else {
                        assert(units_before[j] != unit);
                    }
                }
            }
            assert(after =~= expected);
        }
    }

    /// Notes that the chunk `chunk` holds each of `units`.
    pub fn record_all(&mut self, units: &Vec<usize>, chunk: &String)
        requires
            old(self).wf(),
        ensures
            final(self).wf(),
            final(self)@ == with_memberships(old(self)@, units@, chunk@),
    {
        let mut i: usize = 0;
        assert(units@.take(0) =~= Seq::<usize>::empty());
        while i < units.len()
            invariant
                i <= units.len(),
                self.wf(),
                self@ == with_memberships(old(self)@, units@.take(i as int), chunk@),
            decreases units.len() - i,
        {
            assert(units@.take(i + 1).drop_last() =~= units@.take(i as int));
            self.record(units[i], chunk.clone());
            i += 1;
        }
        assert(units@.take(units@.len() as int) =~= units@);
    }

    /// The entries, in order: each code unit with the ids of its chunks.
    pub fn entries(&self) -> (out: Vec<(usize, Vec<String>)>)
        requires
            self.wf(),
        ensures
            out.deep_view() == self@,
    {
        let units = handle_list(&self.units);
        let mut out: Vec<(usize, Vec<String>)> = Vec::new();
        let mut k: usize = 0;
        while k < units.len()
            invariant
                k <= units.len(),
                self.wf(),
                units@ == handle_items(self.units),
                out@.len() == k,
                forall|j: int| 0 <= j < k ==> (#[trigger] out@[j]).deep_view() == self@[j],
            decreases units.len() - k,
        {
            let chunks = text_list(&self.chunks[k]);
            out.push((units[k], chunks));
            k += 1;
        }
        assert(out.deep_view() =~= self@);
        out
    }
}

} // verus!
