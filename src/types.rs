//! The species and solvent records a solution is described with.
use vstd::prelude::*;
use vstd::relations::{sorted_by, total_ordering};
use vstd::seq_lib::lemma_sorted_unique;
use crate::numeric::{checked_pow, fixed, fixed_spec, power_of, Dec, P_UNIT};

verus! {

/// Why a construction or a computation was refused.
#[derive(Clone, Copy, Debug, PartialEq, Eq)]
pub enum CalcError {
    /// A species was given a negative concentration.
    InvalidConcentration,
    /// A species was given no pK value.
    MissingDissociationData,
    /// A solvent was given `min_pH >= max_pH`.
    InvalidSolventRange,
    /// Bisection found the imbalance agreeing in sign with neither end of the bracket
    /// (`calculator::lemma_solve_consistent` shows the solver never reports it).
    InconsistentBracket,
    /// A decimal result fell outside the range of the decimal type.
    NumericOverflow,
}

/// The decimal ten, base of all pK / pH conversions.
pub open spec fn ten_spec() -> Dec {
    Dec::int_spec(10)
}

/// The linear constant `10^(-pk)` of a fixed-point logarithmic value `pk`.
pub open spec fn linear_of(pk: int) -> Option<Dec> {
    power_of(ten_spec(), fixed_spec(-pk))
}

/// Computes `linear_of(pk)`.
pub fn linear(pk: i64) -> (r: Option<Dec>)
    ensures
        r == linear_of(pk as int),
{
    let ten = Dec::from_u64(10);
    checked_pow(ten, fixed(-(pk as i128)))
}

pub open spec fn sorted_ascending(s: Seq<i64>) -> bool {
    forall|i: int, j: int| 0 <= i < j < s.len() ==> s[i] <= s[j]
}

/// The values of `v` in ascending order.
fn sort_ascending(v: &Vec<i64>) -> (r: Vec<i64>)
    ensures
        sorted_ascending(r@),
        r@.to_multiset() == v@.to_multiset(),
{
    let mut out: Vec<i64> = Vec::new();
    let mut i: usize = 0;
    assert(out@ =~= v@.take(0));
    while i < v.len()
        invariant
            i <= v.len(),
            sorted_ascending(out@),
            out@.to_multiset() == v@.take(i as int).to_multiset(),
        decreases v.len() - i,
    {
        let x = v[i];
        let mut p: usize = 0;
        while p < out.len() && out[p] <= x
            invariant
                p <= out.len(),
                forall|k: int| 0 <= k < p ==> out@[k] <= x,
            decreases out.len() - p,
        {
            p = p + 1;
        }
        let ghost before = out@;
        out.insert(p, x);
        assert(out@ == before.insert(p as int, x));
        assert(v@.take(i as int + 1) == v@.take(i as int).push(x));
        proof {
            vstd::seq_lib::to_multiset_insert(before, p as int, x);
            vstd::seq_lib::to_multiset_build(v@.take(i as int), x);
        }
        assert(sorted_ascending(out@)) by {
            assert forall|a: int, b: int| 0 <= a < b < out@.len() implies out@[a] <= out@[b] by {
                if b < p {
                } else if b == p {
                } else if a < p {
                    assert(before[b - 1] >= before[p as int]);
                } else if a == p {
                    assert(before[b - 1] >= before[p as int]);
                } else {
                }
            }
        }
        i = i + 1;
    }
    assert(v@.take(v.len() as int) == v@);
    out
}

/// One dissolved acid or base.
#[derive(Clone, Debug)]
pub struct AcidBase {
    name: Option<String>,
    is_acid: bool,
    conc: Dec,
    pka_values: Vec<i64>,
    dissoc_consts_acid: Vec<Dec>,
}

impl AcidBase {
    /// The display label; no computation reads it.
    pub closed spec fn name_spec(&self) -> Option<String> {
        self.name
    }

    pub closed spec fn is_acid_spec(&self) -> bool {
        self.is_acid
    }

    pub closed spec fn conc_spec(&self) -> Dec {
        self.conc
    }

    /// The pK values, fixed-point with `P_SCALE` decimals.
    pub closed spec fn pkas(&self) -> Seq<i64> {
        self.pka_values@
    }

    /// The linear dissociation constants, one for each pK.
    pub closed spec fn consts(&self) -> Seq<Dec> {
        self.dissoc_consts_acid@
    }

    pub open spec fn wf(&self) -> bool {
        &&& !self.conc_spec().is_negative_spec()
        &&& self.pkas().len() > 0
        &&& sorted_ascending(self.pkas())
        &&& self.consts().len() == self.pkas().len()
        &&& forall|i: int| 0 <= i < self.pkas().len()
            ==> linear_of(self.pkas()[i] as int) == Some(#[trigger] self.consts()[i])
    }

    /// A species from its character (`is_acidic`), its concentration and its pK values
    /// (fixed-point with `P_SCALE` decimals; for a base, those of its conjugate acid).
    /// The pK values are sorted ascending and each becomes the constant `10^(-pK)`.
    pub fn new(is_acidic: bool, conc: Dec, pKa_values: Vec<i64>) -> (r: Result<AcidBase, CalcError>)
        ensures
            conc.is_negative_spec() ==> r == Err::<AcidBase, CalcError>(CalcError::InvalidConcentration),
            !conc.is_negative_spec() && pKa_values@.len() == 0
                ==> r == Err::<AcidBase, CalcError>(CalcError::MissingDissociationData),
            !conc.is_negative_spec() && pKa_values@.len() > 0 ==> (
                r == Err::<AcidBase, CalcError>(CalcError::NumericOverflow)
                <==> exists|p: i64| pKa_values@.contains(p) && (#[trigger] linear_of(p as int)).is_none()),
            !conc.is_negative_spec() && pKa_values@.len() > 0
                && (forall|p: i64| pKa_values@.contains(p) ==> (#[trigger] linear_of(p as int)).is_some())
                ==> r is Ok,
            r is Ok ==> ({
                let s = r->Ok_0;
                &&& s.wf()
                &&& s.name_spec() is None
                &&& s.is_acid_spec() == is_acidic
                &&& s.conc_spec() == conc
                &&& s.pkas().to_multiset() == pKa_values@.to_multiset()
            }),
    {

        if conc.is_negative() {
            return Err(CalcError::InvalidConcentration);
        }
        if pKa_values.len() == 0 {
            return Err(CalcError::MissingDissociationData);
        }
        let sorted = sort_ascending(&pKa_values);
        proof {
            vstd::seq_lib::to_multiset_len(sorted@);
            vstd::seq_lib::to_multiset_len(pKa_values@);
        }
        let mut consts: Vec<Dec> = Vec::new();
        let mut i: usize = 0;
        while i < sorted.len()
            invariant
                i <= sorted.len(),
                consts@.len() == i,
                sorted_ascending(sorted@),
                sorted@.to_multiset() == pKa_values@.to_multiset(),
                !conc.is_negative_spec(),
                forall|k: int| 0 <= k < i ==> linear_of(sorted@[k] as int) == Some(#[trigger] consts@[k]),
            decreases sorted.len() - i,
        {
            match linear(sorted[i]) {
                Some(k) => consts.push(k),
                None => {
                    proof {
                        let p = sorted@[i as int];
                        assert(sorted@.contains(p));
                        vstd::seq_lib::to_multiset_contains(sorted@, p);
                        vstd::seq_lib::to_multiset_contains(pKa_values@, p);
                        assert(sorted@.to_multiset().count(p) > 0);
                        assert(pKa_values@.contains(p));
                    }
                    return Err(CalcError::NumericOverflow);
                },
            }
            i = i + 1;
        }
        proof {
            assert forall|p: i64| pKa_values@.contains(p) implies (#[trigger] linear_of(p as int)).is_some() by {
                vstd::seq_lib::to_multiset_contains(sorted@, p);
                vstd::seq_lib::to_multiset_contains(pKa_values@, p);
                assert(pKa_values@.to_multiset().count(p) > 0);
                assert(sorted@.contains(p));
                let k = choose|k: int| 0 <= k < sorted@.len() && sorted@[k] == p;
                assert(linear_of(sorted@[k] as int) == Some(consts@[k]));
            }
        }
        let r = AcidBase { name: None, is_acid: is_acidic, conc, pka_values: sorted, dissoc_consts_acid: consts };
        assert(r.wf());
        Ok(r)
    }

    /// The display label, if one was set.
    pub fn name(&self) -> (r: &Option<String>)
        ensures
            *r == self.name_spec(),
    {
        &self.name
    }

    /// Sets the display label, leaving everything the computation reads unchanged.
    pub fn set_name(&mut self, name: Option<String>)
        ensures
            final(self).name_spec() == name,
            final(self).is_acid_spec() == old(self).is_acid_spec(),
            final(self).conc_spec() == old(self).conc_spec(),
            final(self).pkas() == old(self).pkas(),
            final(self).consts() == old(self).consts(),
    {
        self.name = name;
    }

    pub fn is_acidic(&self) -> (r: bool)
        ensures
            r == self.is_acid_spec(),
    {
        self.is_acid
    }

    pub fn conc(&self) -> (r: Dec)
        ensures
            r == self.conc_spec(),
    {
        self.conc
    }

    /// The pK values, ascending.
    pub fn pka_values(&self) -> (r: &Vec<i64>)
        ensures
            r@ == self.pkas(),
    {
        &self.pka_values
    }

    /// The linear constants `10^(-pK)`, in the order of the ascending pK values.
    pub fn dissoc_consts_acid(&self) -> (r: &Vec<Dec>)
        ensures
            r@ == self.consts(),
    {
        &self.dissoc_consts_acid
    }
}

/// The stored pK values and constants of a species depend only on which pK values it was
/// given, not on their order: two well-formed species whose pK lists hold the same values
/// (as built by `AcidBase::new` from two orderings of one list) store equal lists.
pub proof fn lemma_constants_order_free(a: AcidBase, b: AcidBase)
    requires
        a.wf(),
        b.wf(),
        a.pkas().to_multiset() == b.pkas().to_multiset(),
    ensures
        a.pkas() == b.pkas(),
        a.consts() == b.consts(),
{
    let leq = |x: i64, y: i64| x <= y;
    assert(sorted_by(a.pkas(), leq));
    assert(sorted_by(b.pkas(), leq));
    assert(total_ordering(leq));
    lemma_sorted_unique(a.pkas(), b.pkas(), leq);
    assert forall|i: int| 0 <= i < a.consts().len() implies a.consts()[i] == b.consts()[i] by {
        assert(linear_of(a.pkas()[i] as int) == Some(a.consts()[i]));
        assert(linear_of(b.pkas()[i] as int) == Some(b.consts()[i]));
    }
    assert(a.consts() =~= b.consts());
}

/// The solvent: its self-ionization pK and the pH bracket searched,
/// all fixed-point with `P_SCALE` decimals.
#[derive(Clone, Copy, Debug)]
pub struct SolProperties {
    pKi: i64,
    min_pH: i64,
    max_pH: i64,
}

impl SolProperties {
    pub closed spec fn pki_spec(&self) -> i64 {
        self.pKi
    }

    pub closed spec fn min_spec(&self) -> i64 {
        self.min_pH
    }

    pub closed spec fn max_spec(&self) -> i64 {
        self.max_pH
    }

    pub open spec fn wf(&self) -> bool {
        self.min_spec() < self.max_spec()
    }

    /// Water at 25 °C: pKw = 14, pH searched over [-2, 16].
    pub fn default_water() -> (r: SolProperties)
        ensures
            r.wf(),
            r.pki_spec() == 14 * P_UNIT,
            r.min_spec() == -2 * P_UNIT,
            r.max_spec() == 16 * P_UNIT,
    {
        SolProperties { pKi: 14 * P_UNIT, min_pH: -2 * P_UNIT, max_pH: 16 * P_UNIT }
    }

    /// A solvent; refused unless `min_pH < max_pH`.
    pub fn new(pKi: i64, min_pH: i64, max_pH: i64) -> (r: Result<SolProperties, CalcError>)
        ensures
            min_pH >= max_pH ==> r == Err::<SolProperties, CalcError>(CalcError::InvalidSolventRange),
            min_pH < max_pH ==> r is Ok && ({
                let s = r->Ok_0;
                &&& s.wf()
                &&& s.pki_spec() == pKi
                &&& s.min_spec() == min_pH
                &&& s.max_spec() == max_pH
            }),
    {
        if min_pH >= max_pH {
            return Err(CalcError::InvalidSolventRange);
        }
        Ok(SolProperties { pKi, min_pH, max_pH })
    }

    pub fn pKi(&self) -> (r: i64)
        ensures
            r == self.pki_spec(),
    {
        self.pKi
    }

    pub fn min_pH(&self) -> (r: i64)
        ensures
            r == self.min_spec(),
    {
        self.min_pH
    }

    pub fn max_pH(&self) -> (r: i64)
        ensures
            r == self.max_spec(),
    {
        self.max_pH
    }
}

} // verus!
