//! A value that holds one of several kinds of value, or none.

use vstd::prelude::*;

pub mod qvariant_qvector3d;

verus! {

/// A vector in three dimensions. Each coordinate is kept as the bit pattern
/// of a single-precision number, so that a vector is carried and compared
/// bit for bit.
#[derive(Clone, Copy, Debug)]
pub struct QVector3D {
    pub x: u32,
    pub y: u32,
    pub z: u32,
}

impl QVector3D {
    /// The vector whose coordinates have the bit patterns `x`, `y` and `z`.
    pub fn new(x: u32, y: u32, z: u32) -> (vector: Self)
        ensures
            vector == (QVector3D { x, y, z }),
    {
        QVector3D { x, y, z }
    }

    /// The null vector: every coordinate is positive zero.
    pub open spec fn null() -> QVector3D {
        QVector3D { x: 0, y: 0, z: 0 }
    }
}

impl Default for QVector3D {
    /// Constructs the null vector.
    fn default() -> (vector: Self)
        ensures
            vector == QVector3D::null(),
    {
        QVector3D { x: 0, y: 0, z: 0 }
    }
}

/// A value of any of the kinds below, with a tag that tells which.
#[derive(Debug)]
pub enum QVariant {
    /// No value at all.
    Invalid,
    /// A truth value.
    Bool(bool),
    /// A 32-bit signed integer.
    Int(i32),
    /// A vector in three dimensions.
    Vector3D(QVector3D),
}

impl Clone for QVariant {
    /// Constructs a copy that holds the same value.
    fn clone(&self) -> (copy: Self)
        ensures
            copy == *self,
    {
        match self {
            QVariant::Invalid => QVariant::Invalid,
            QVariant::Bool(value) => QVariant::Bool(*value),
            QVariant::Int(value) => QVariant::Int(*value),
            QVariant::Vector3D(value) => QVariant::Vector3D(*value),
        }
    }
}

} // verus!
