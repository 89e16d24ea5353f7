//! The feature vocabulary: what a unit may measure about itself.
//!
//! A Tessera declares a [`FeatureSchema`]: the ordered, typed set of measurements a unit
//! exposes to a Facet. Order is the ABI: fields lay out contiguously in the Facet's input
//! buffer, so the per-unit stride is the sum of every field's slots.

use vstd::prelude::*;

verus! {

/// A Tessera's declared feature vocabulary: an ordered list of typed fields.
///
/// Extend by appending, never by reordering, to keep existing Facets valid.
#[derive(Debug, Clone, PartialEq)]
pub struct FeatureSchema {
    pub fields: Vec<FeatureField>,
}

/// One field in the vocabulary: an identifier, a wire type, and how far it reads around
/// its unit.
#[derive(Debug, Clone, PartialEq)]
pub struct FeatureField {
    /// Identifier the Facet reads (e.g. `"luminance"`, `"gradient"`).
    pub key: String,
    pub ty: FeatureType,
    pub gather: Gather,
}

/// The wire type of a feature field.
#[derive(Debug, Clone, Copy, PartialEq, Eq, Structural)]
pub enum FeatureType {
    /// A single slot (e.g. luminance, gradient magnitude).
    Scalar,
    /// A fixed-length vector (e.g. mean RGB = 3, gradient = 2).
    Vector { len: u16 },
    /// A fixed 2-D patch (e.g. an N×M sub-cell luminance patch).
    Patch { rows: u16, cols: u16 },
}

/// How far a feature reads around its unit. `SelfOnly` is radius 0.
#[derive(Debug, Clone, Copy, PartialEq, Eq, Structural)]
pub enum Gather {
    SelfOnly,
    /// Bounded neighbourhood; `radius` is measured in units.
    Neighborhood { radius: u16 },
}

/// Number of contiguous slots a field of type `ty` occupies.
pub open spec fn type_slots(ty: FeatureType) -> nat {
    match ty {
        FeatureType::Scalar => 1,
        FeatureType::Vector { len } => len as nat,
        FeatureType::Patch { rows, cols } => (rows * cols) as nat,
    }
}

/// Radius in units of a gather (0 for `SelfOnly`).
pub open spec fn gather_radius(g: Gather) -> nat {
    match g {
        Gather::SelfOnly => 0,
        Gather::Neighborhood { radius } => radius as nat,
    }
}

/// The sum of the slots of `fields`.
pub open spec fn sum_slots(fields: Seq<FeatureField>) -> nat
    decreases fields.len(),
{
    if fields.len() == 0 {
        0
    } else {
        sum_slots(fields.drop_last()) + type_slots(fields.last().ty)
    }
}

/// The largest gather radius among `fields` (0 when there are none).
pub open spec fn max_radius_of(fields: Seq<FeatureField>) -> nat
    decreases fields.len(),
{
    if fields.len() == 0 {
        0
    } else {
        let r = gather_radius(fields.last().gather);
        let m = max_radius_of(fields.drop_last());
        if r > m {
            r
        } else {
            m
        }
    }
}

impl FeatureType {
    /// Number of contiguous slots this field occupies.
    pub fn slots(self) -> (n: u32)
        ensures
            n as nat == type_slots(self),
    {
        match self {
            FeatureType::Scalar => 1,
            FeatureType::Vector { len } => len as u32,
            FeatureType::Patch { rows, cols } => {
                let r = rows as u32;
                let c = cols as u32;
                assert(r * c <= 65535 * 65535) by (nonlinear_arith)
                    requires
                        r <= 65535,
                        c <= 65535,
                ;
                r * c
            },
        }
    }
}

impl Gather {
    /// Radius in units (0 for `SelfOnly`).
    pub fn radius(self) -> (r: u16)
        ensures
            r as nat == gather_radius(self),
    {
        match self {
            Gather::SelfOnly => 0,
            Gather::Neighborhood { radius } => radius,
        }
    }
}

/// A prefix of the fields never holds more slots than all of them.
pub proof fn lemma_sum_slots_prefix(fields: Seq<FeatureField>, i: int)
    requires
        0 <= i <= fields.len(),
    ensures
        sum_slots(fields.take(i)) <= sum_slots(fields),
    decreases fields.len() - i,
{
    if i < fields.len() {
        lemma_sum_slots_prefix(fields, i + 1);
        assert(fields.take(i + 1).drop_last() =~= fields.take(i));
    } else {
        assert(fields.take(i) =~= fields);
    }
}

impl FeatureSchema {
    /// Total slots one unit's features occupy — the per-unit stride of the Facet input
    /// buffer: exactly the sum of every field's slots.
    pub fn total_slots(&self) -> (n: u32)
        requires
            sum_slots(self.fields@) <= u32::MAX,
        ensures
            n as nat == sum_slots(self.fields@),
    {
        let mut total: u32 = 0;
        let mut i: usize = 0;
        while i < self.fields.len()
            invariant
                i <= self.fields@.len(),
                total as nat == sum_slots(self.fields@.take(i as int)),
                sum_slots(self.fields@) <= u32::MAX,
            decreases self.fields@.len() - i,
        {
            proof {
                assert(self.fields@.take(i + 1).drop_last() =~= self.fields@.take(i as int));
                lemma_sum_slots_prefix(self.fields@, i + 1);
            }
            total = total + self.fields[i].ty.slots();
            i += 1;
        }
        assert(self.fields@.take(i as int) =~= self.fields@);
        total
    }

    /// The widest neighbourhood any field reads (in units); 0 for an empty schema. The
    /// runtime pads the feature field by this radius so every unit can gather in-bounds.
    pub fn max_radius(&self) -> (r: u16)
        ensures
            r as nat == max_radius_of(self.fields@),
    {
        let mut best: u16 = 0;
        let mut i: usize = 0;
        while i < self.fields.len()
            invariant
                i <= self.fields@.len(),
                best as nat == max_radius_of(self.fields@.take(i as int)),
            decreases self.fields@.len() - i,
        {
            proof {
                assert(self.fields@.take(i + 1).drop_last() =~= self.fields@.take(i as int));
            }
            let r = self.fields[i].gather.radius();
            if r > best {
                best = r;
            }
            i += 1;
        }
        assert(self.fields@.take(i as int) =~= self.fields@);
        best
    }
}

} // verus!
