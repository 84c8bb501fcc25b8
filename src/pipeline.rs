//! From sample records to the interpolated polynomial.
use crate::interp::{distinct, lagrange, lagrange_interpolation, InterpError, Polynomial};
use crate::decode::digits_value;
use crate::records::{
    decimal_value, radix_of, read_values_from_map, record_ok, ReadError, RecordTable, SampleRecord,
};
use vstd::prelude::*;

verus! {

/// Why no polynomial came out of a table of records.
#[derive(Clone, Copy, Debug, PartialEq, Eq, Structural)]
pub enum ReconstructError {
    /// A selected record could not be read.
    Read(ReadError),
    /// The selected samples cannot be interpolated.
    Interp(InterpError),
}

/// The records that `reconstruct` uses: the first `k`, or all if fewer.
pub open spec fn selected(s: Seq<SampleRecord>, k: nat) -> Seq<SampleRecord> {
    if k < s.len() {
        s.take(k as int)
    } else {
        s
    }
}

/// Abscissas of the records.
pub open spec fn abscissas(s: Seq<SampleRecord>) -> Seq<int> {
    Seq::new(s.len(), |i: int| decimal_value(s[i].x@))
}

/// Decoded ordinates of the records.
pub open spec fn ordinates(s: Seq<SampleRecord>) -> Seq<int> {
    Seq::new(s.len(), |i: int| digits_value(s[i].value@, radix_of(s[i].view())) as int)
}

/// Interpolates the first `k` records of `table` (all of them if it holds
/// fewer) after reading each one.
pub fn reconstruct(table: &RecordTable, k: usize) -> (r: Result<Polynomial, ReconstructError>)
    ensures
        ({
            let sel = selected(table.entries@, k as nat);
            let all_ok = forall|i: int| 0 <= i < sel.len() ==> #[trigger] record_ok(sel[i].view());
            &&& !all_ok <==> (r is Err && r->Err_0 is Read)
            &&& all_ok && sel.len() == 0 ==> r == Err::<Polynomial, ReconstructError>(
                ReconstructError::Interp(InterpError::InsufficientSamples),
            )
            &&& all_ok && sel.len() > 0 && !distinct(abscissas(sel)) ==> r == Err::<
                Polynomial,
                ReconstructError,
            >(ReconstructError::Interp(InterpError::DegenerateSampleSet))
            &&& all_ok && sel.len() > 0 && distinct(abscissas(sel)) ==> r is Ok
            &&& r is Ok ==> r->Ok_0.wf() && r->Ok_0.view() == lagrange(
                abscissas(sel),
                ordinates(sel),
                sel.len(),
            )
        }),
{
    let ghost sel = selected(table.entries@, k as nat);
    let mut chosen = RecordTable::new();
    let mut i: usize = 0;
    while i < table.entries.len() && i < k
        invariant
            i <= table.entries.len(),
            i <= k,
            sel == selected(table.entries@, k as nat),
            chosen.entries.len() == i,
            forall|j: int|
                0 <= j < i ==> (#[trigger] chosen.entries@[j]).view()
                    == table.entries@[j].view(),
        decreases table.entries.len() - i,
    {
        let e = &table.entries[i];
        chosen.entries.push(
            SampleRecord { x: e.x.clone(), base: e.base.clone(), value: e.value.clone() },
        );
        i = i + 1;
    }
    assert(chosen.entries.len() == sel.len());
    assert forall|j: int| 0 <= j < sel.len() implies sel[j].view()
        == #[trigger] chosen.entries@[j].view() by {}
    let (xs, ys) = match read_values_from_map(&chosen) {
        Ok(v) => v,
        Err(e) => {
            proof {
                let j = choose|j: int|
                    0 <= j < chosen.entries.len() && !#[trigger] record_ok(
                        chosen.entries@[j].view(),
                    );
                assert(!record_ok(sel[j].view()));
            }
            return Err(ReconstructError::Read(e));
        },
    };
    proof {
        assert forall|j: int| 0 <= j < sel.len() implies #[trigger] record_ok(sel[j].view()) by {
            assert(record_ok(chosen.entries@[j].view()));
        }
        assert(crate::interp::int_values(xs@) =~= abscissas(sel));
        assert forall|j: int| 0 <= j < sel.len() implies #[trigger] ys@[j].value() == ordinates(
            sel,
        )[j] by {
            assert(xs@[j].value() == decimal_value(chosen.entries@[j].x@));
            assert(chosen.entries@[j].view() == sel[j].view());
        }
        assert(crate::interp::int_values(ys@) =~= ordinates(sel));
    }
    match lagrange_interpolation(&xs, &ys) {
        Ok(p) => Ok(p),
        Err(e) => Err(ReconstructError::Interp(e)),
    }
}

} // verus!
