//! Conversions between a [`QVariant`] and a [`QVector3D`].

use crate::qvariant::{QVariant, QVector3D};
use vstd::prelude::*;

verus! {

/// The vector that `variant` gives when it is asked for one: the vector it
/// holds, or the null vector if it holds anything else.
pub open spec fn vector_of(variant: QVariant) -> QVector3D {
    match variant {
        QVariant::Vector3D(vector) => vector,
        _ => QVector3D::null(),
    }
}

/// Tells whether `variant` can be read as a vector, which it can exactly
/// when it holds one.
pub fn can_convert(variant: &QVariant) -> (convertible: bool)
    ensures
        convertible == (*variant is Vector3D),
{
    match variant {
        QVariant::Vector3D(_) => true,
        _ => false,
    }
}

/// Constructs the variant that holds `value`.
pub fn construct(value: &QVector3D) -> (variant: QVariant)
    ensures
        variant == QVariant::Vector3D(*value),
{
    QVariant::Vector3D(*value)
}

/// Reads `variant` as a vector: the vector it holds, or the null vector if
/// it cannot be read as one.
pub fn value_or_default(variant: &QVariant) -> (value: QVector3D)
    ensures
        value == vector_of(*variant),
{
    match variant {
        QVariant::Vector3D(vector) => *vector,
        _ => QVector3D::default(),
    }
}

} // verus!
