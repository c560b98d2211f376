//! Reads the vDSO base address and the system page size out of the
//! process's auxiliary vector: the `(key, value)` machine-word pairs the
//! kernel places on the initial stack past the environment strings.  The
//! unverified embedder hands the pairs over as plain values; walking the
//! raw stack memory is its affair.

use crate::PatchError;
use vstd::prelude::*;

verus! {

/// Terminator key of the auxiliary vector.
pub const AT_NULL: usize = 0;

/// Key of the pair that carries the vDSO header address.
pub const AT_SYSINFO_EHDR: usize = 33;

/// Key of the pair that carries the system page size.
pub const AT_PAGESZ: usize = 6;

/// The vDSO base address and the system page size.  Populated once at
/// discovery; immutable thereafter.
#[derive(PartialEq, Eq, Structural, Clone, Copy, Debug)]
pub struct AuxVecValues {
    pub vdso_base: usize,
    pub page_size: usize,
}

/// The pairs before the terminator key: the part of the vector a walk of
/// the auxiliary vector visits.
pub open spec fn upto_null(pairs: Seq<(usize, usize)>) -> Seq<(usize, usize)>
    decreases pairs.len(),
{
    if pairs.len() == 0 || pairs[0].0 == AT_NULL {
        Seq::empty()
    } else {
        seq![pairs[0]] + upto_null(pairs.drop_first())
    }
}

/// The value of the last pair with key `key`, or 0 when no pair has it --
/// exactly what a front-to-back walk that overwrites on every match
/// leaves behind.
pub open spec fn last_val(pairs: Seq<(usize, usize)>, key: usize) -> usize
    decreases pairs.len(),
{
    if pairs.len() == 0 {
        0
    } else if pairs.last().0 == key {
        pairs.last().1
    } else {
        last_val(pairs.drop_last(), key)
    }
}

/// The vDSO base the walk records.
pub open spec fn spec_vdso_base(pairs: Seq<(usize, usize)>) -> usize {
    last_val(upto_null(pairs), AT_SYSINFO_EHDR)
}

/// The page size the walk records.
pub open spec fn spec_page_size(pairs: Seq<(usize, usize)>) -> usize {
    last_val(upto_null(pairs), AT_PAGESZ)
}

proof fn lemma_upto_null_prefix(pairs: Seq<(usize, usize)>, i: int)
    requires
        0 <= i <= pairs.len(),
        forall|j: int| 0 <= j < i ==> pairs[j].0 != AT_NULL,
        i < pairs.len() ==> pairs[i].0 == AT_NULL,
    ensures
        upto_null(pairs) == pairs.subrange(0, i),
    decreases i,
{
    if i == 0 {
        assert(upto_null(pairs) =~= pairs.subrange(0, 0));
    } else {
        let rest = pairs.drop_first();
        assert(upto_null(pairs) == seq![pairs[0]] + upto_null(rest));
        assert(forall|j: int| 0 <= j < i - 1 ==> rest[j] == pairs[j + 1]);
        lemma_upto_null_prefix(rest, i - 1);
        assert(upto_null(pairs) =~= pairs.subrange(0, i));
    }
}

/// Walks the pairs up to the terminator key and records the value of the
/// last vDSO-base pair and of the last page-size pair.  Both must be
/// non-zero; otherwise nothing about the vDSO is known and the walk
/// reports `NoAuxv`.
pub fn parse_aux_vec(pairs: &Vec<(usize, usize)>) -> (r: Result<AuxVecValues, PatchError>)
    ensures
        r is Ok <==> spec_vdso_base(pairs@) != 0 && spec_page_size(pairs@) != 0,
        r matches Ok(v) ==> v.vdso_base == spec_vdso_base(pairs@) && v.page_size == spec_page_size(
            pairs@,
        ),
        r matches Err(e) ==> e == PatchError::NoAuxv,
{
    let mut ptr: usize = 0;
    let mut pagesize: usize = 0;
    let n = pairs.len();
    let mut i: usize = 0;
    proof {
        assert(pairs@.subrange(0, 0) =~= Seq::<(usize, usize)>::empty());
        assert(last_val(Seq::<(usize, usize)>::empty(), AT_SYSINFO_EHDR) == 0);
        assert(last_val(Seq::<(usize, usize)>::empty(), AT_PAGESZ) == 0);
    }
    while i < n && pairs[i].0 != AT_NULL
        invariant
            n == pairs@.len(),
            0 <= i <= n,
            forall|j: int| 0 <= j < i ==> pairs@[j].0 != AT_NULL,
            ptr == last_val(pairs@.subrange(0, i as int), AT_SYSINFO_EHDR),
            pagesize == last_val(pairs@.subrange(0, i as int), AT_PAGESZ),
        decreases n - i,
    {
        let (key, val) = pairs[i];
        proof {
            let prefix = pairs@.subrange(0, i + 1);
            assert(prefix.drop_last() =~= pairs@.subrange(0, i as int));
            assert(prefix.last() == pairs@[i as int]);
        }
        if key == AT_SYSINFO_EHDR {
            ptr = val;
        }
        if key == AT_PAGESZ {
            pagesize = val;
        }
        i = i + 1;
    }
    proof {
        lemma_upto_null_prefix(pairs@, i as int);
    }
    if ptr == 0 || pagesize == 0 {
        return Err(PatchError::NoAuxv);
    }
    Ok(AuxVecValues { vdso_base: ptr, page_size: pagesize })
}

} // verus!
