//! Closed union of fixed-width integer kinds with range-checked conversions.
//!
//! A conversion to a native fixed-width type succeeds exactly when the
//! mathematical value fits the target's range; nothing is wrapped or
//! truncated silently.

use vstd::prelude::*;

verus! {

/// A numeric value tagged with the fixed-width kind it was produced with.
#[derive(Clone, Copy, Debug, PartialEq, Eq, Structural)]
pub enum Number {
    U8(u8),
    I8(i8),
    U16(u16),
    I16(i16),
    U32(u32),
    I32(i32),
    U64(u64),
    I64(i64),
    U128(u128),
    I128(i128),
}

/// Failure of a range-checked numeric conversion: the value does not fit
/// the requested target type.
#[derive(Clone, Copy, Debug, PartialEq, Eq, Structural)]
pub struct OutOfRange;

impl Number {
    /// The mathematical value carried, independent of the kind tag.
    pub open spec fn as_int(self) -> int {
        match self {
            Number::U8(v) => v as int,
            Number::I8(v) => v as int,
            Number::U16(v) => v as int,
            Number::I16(v) => v as int,
            Number::U32(v) => v as int,
            Number::I32(v) => v as int,
            Number::U64(v) => v as int,
            Number::I64(v) => v as int,
            Number::U128(v) => v as int,
            Number::I128(v) => v as int,
        }
    }

    /// Sign and magnitude of the value: `r.0` is true for strictly negative
    /// values, `r.1` is the absolute value.
    pub fn parts(&self) -> (r: (bool, u128))
        ensures
            r.0 <==> self.as_int() < 0,
            r.0 ==> self.as_int() == -(r.1 as int),
            !r.0 ==> self.as_int() == r.1 as int,
    {
        match *self {
            Number::U8(v) => (false, v as u128),
            Number::I8(v) => {
                if v < 0 {
                    (true, ((-((v as i128) + 1)) as u128) + 1)
                } else {
                    (false, v as u128)
                }
            },
            Number::U16(v) => (false, v as u128),
            Number::I16(v) => {
                if v < 0 {
                    (true, ((-((v as i128) + 1)) as u128) + 1)
                } else {
                    (false, v as u128)
                }
            },
            Number::U32(v) => (false, v as u128),
            Number::I32(v) => {
                if v < 0 {
                    (true, ((-((v as i128) + 1)) as u128) + 1)
                } else {
                    (false, v as u128)
                }
            },
            Number::U64(v) => (false, v as u128),
            Number::I64(v) => {
                if v < 0 {
                    (true, ((-((v as i128) + 1)) as u128) + 1)
                } else {
                    (false, v as u128)
                }
            },
            Number::U128(v) => (false, v),
            Number::I128(v) => {
                if v < 0 {
                    (true, ((-(v + 1)) as u128) + 1)
                } else {
                    (false, v as u128)
                }
            },
        }
    }

    /// The canonical kind tag for a mathematical value: the narrowest
    /// unsigned kind for nonnegative values, the narrowest signed kind for
    /// negative ones; nothing for values outside every kind's range.
    pub open spec fn canonical_of(i: int) -> Option<Number> {
        if i >= 0 {
            if i <= u8::MAX {
                Some(Number::U8(i as u8))
            } else if i <= u16::MAX {
                Some(Number::U16(i as u16))
            } else if i <= u32::MAX {
                Some(Number::U32(i as u32))
            } else if i <= u64::MAX {
                Some(Number::U64(i as u64))
            } else if i <= u128::MAX {
                Some(Number::U128(i as u128))
            } else {
                None
            }
        } else {
            if i >= i8::MIN {
                Some(Number::I8(i as i8))
            } else if i >= i16::MIN {
                Some(Number::I16(i as i16))
            } else if i >= i32::MIN {
                Some(Number::I32(i as i32))
            } else if i >= i64::MIN {
                Some(Number::I64(i as i64))
            } else if i >= i128::MIN {
                Some(Number::I128(i as i128))
            } else {
                None
            }
        }
    }

    /// Whether this value carries the canonical kind tag for its value:
    /// the tag a decoded numeric attribute would be given.
    pub open spec fn is_canonical(self) -> bool {
        Number::canonical_of(self.as_int()) == Some(self)
    }

    /// The canonical number for a sign-and-magnitude pair, if any kind
    /// can hold it.
    pub fn canonical_from_parts(neg: bool, mag: u128) -> (r: Option<Number>)
        requires
            neg ==> mag >= 1,
        ensures
            r == Number::canonical_of(
                if neg {
                    -(mag as int)
                } else {
                    mag as int
                },
            ),
    {
        if !neg {
            if mag <= u8::MAX as u128 {
                Some(Number::U8(mag as u8))
            } else if mag <= u16::MAX as u128 {
                Some(Number::U16(mag as u16))
            } else if mag <= u32::MAX as u128 {
                Some(Number::U32(mag as u32))
            } else if mag <= u64::MAX as u128 {
                Some(Number::U64(mag as u64))
            } else {
                Some(Number::U128(mag))
            }
        } else {
            if mag <= 128 {
                Some(Number::I8((-((mag as i16) - 1) - 1) as i8))
            } else if mag <= 32768 {
                Some(Number::I16((-((mag as i32) - 1) - 1) as i16))
            } else if mag <= 2147483648 {
                Some(Number::I32((-((mag as i64) - 1) - 1) as i32))
            } else if mag <= 9223372036854775808 {
                Some(Number::I64((-((mag as i128) - 1) - 1) as i64))
            } else if mag < 170141183460469231731687303715884105728 {
                Some(Number::I128(-(mag as i128)))
            } else if mag == 170141183460469231731687303715884105728 {
                Some(Number::I128(i128::MIN))
            } else {
                None
            }
        }
    }

    /// Range-checked conversion to `u8`.
    pub fn to_u8(&self) -> (r: Result<u8, OutOfRange>)
        ensures
            r is Ok <==> 0 <= self.as_int() <= u8::MAX,
            r matches Ok(v) ==> v as int == self.as_int(),
    {
        let (neg, mag): (bool, u128) = self.parts();
        if neg || mag > u8::MAX as u128 {
            Err(OutOfRange)
        } else {
            Ok(mag as u8)
        }
    }

    /// Range-checked conversion to `u16`.
    pub fn to_u16(&self) -> (r: Result<u16, OutOfRange>)
        ensures
            r is Ok <==> 0 <= self.as_int() <= u16::MAX,
            r matches Ok(v) ==> v as int == self.as_int(),
    {
        let (neg, mag): (bool, u128) = self.parts();
        if neg || mag > u16::MAX as u128 {
            Err(OutOfRange)
        } else {
            Ok(mag as u16)
        }
    }

    /// Range-checked conversion to `u32`.
    pub fn to_u32(&self) -> (r: Result<u32, OutOfRange>)
        ensures
            r is Ok <==> 0 <= self.as_int() <= u32::MAX,
            r matches Ok(v) ==> v as int == self.as_int(),
    {
        let (neg, mag): (bool, u128) = self.parts();
        if neg || mag > u32::MAX as u128 {
            Err(OutOfRange)
        } else {
            Ok(mag as u32)
        }
    }

    /// Range-checked conversion to `u64`.
    pub fn to_u64(&self) -> (r: Result<u64, OutOfRange>)
        ensures
            r is Ok <==> 0 <= self.as_int() <= u64::MAX,
            r matches Ok(v) ==> v as int == self.as_int(),
    {
        let (neg, mag): (bool, u128) = self.parts();
        if neg || mag > u64::MAX as u128 {
            Err(OutOfRange)
        } else {
            Ok(mag as u64)
        }
    }

    /// Range-checked conversion to `u128`.
    pub fn to_u128(&self) -> (r: Result<u128, OutOfRange>)
        ensures
            r is Ok <==> 0 <= self.as_int(),
            r matches Ok(v) ==> v as int == self.as_int(),
    {
        let (neg, mag): (bool, u128) = self.parts();
        if neg {
            Err(OutOfRange)
        } else {
            Ok(mag)
        }
    }

    /// Range-checked conversion to `i8`.
    pub fn to_i8(&self) -> (r: Result<i8, OutOfRange>)
        ensures
            r is Ok <==> i8::MIN <= self.as_int() <= i8::MAX,
            r matches Ok(v) ==> v as int == self.as_int(),
    {
        let (neg, mag): (bool, u128) = self.parts();
        if neg {
            if mag <= 128 {
                Ok((-((mag as i16) - 1) - 1) as i8)
            } else {
                Err(OutOfRange)
            }
        } else {
            if mag <= i8::MAX as u128 {
                Ok(mag as i8)
            } else {
                Err(OutOfRange)
            }
        }
    }

    /// Range-checked conversion to `i16`.
    pub fn to_i16(&self) -> (r: Result<i16, OutOfRange>)
        ensures
            r is Ok <==> i16::MIN <= self.as_int() <= i16::MAX,
            r matches Ok(v) ==> v as int == self.as_int(),
    {
        let (neg, mag): (bool, u128) = self.parts();
        if neg {
            if mag <= 32768 {
                Ok((-((mag as i32) - 1) - 1) as i16)
            } else {
                Err(OutOfRange)
            }
        } else {
            if mag <= i16::MAX as u128 {
                Ok(mag as i16)
            } else {
                Err(OutOfRange)
            }
        }
    }

    /// Range-checked conversion to `i32`.
    pub fn to_i32(&self) -> (r: Result<i32, OutOfRange>)
        ensures
            r is Ok <==> i32::MIN <= self.as_int() <= i32::MAX,
            r matches Ok(v) ==> v as int == self.as_int(),
    {
        let (neg, mag): (bool, u128) = self.parts();
        if neg {
            if mag <= 2147483648 {
                Ok((-((mag as i64) - 1) - 1) as i32)
            } else {
                Err(OutOfRange)
            }
        } else {
            if mag <= i32::MAX as u128 {
                Ok(mag as i32)
            } else {
                Err(OutOfRange)
            }
        }
    }

    /// Range-checked conversion to `i64`.
    pub fn to_i64(&self) -> (r: Result<i64, OutOfRange>)
        ensures
            r is Ok <==> i64::MIN <= self.as_int() <= i64::MAX,
            r matches Ok(v) ==> v as int == self.as_int(),
    {
        let (neg, mag): (bool, u128) = self.parts();
        if neg {
            if mag <= 9223372036854775808 {
                Ok((-((mag as i128) - 1) - 1) as i64)
            } else {
                Err(OutOfRange)
            }
        } else {
            if mag <= i64::MAX as u128 {
                Ok(mag as i64)
            } else {
                Err(OutOfRange)
            }
        }
    }

    /// Range-checked conversion to `i128`.
    pub fn to_i128(&self) -> (r: Result<i128, OutOfRange>)
        ensures
            r is Ok <==> i128::MIN <= self.as_int() <= i128::MAX,
            r matches Ok(v) ==> v as int == self.as_int(),
    {
        let (neg, mag): (bool, u128) = self.parts();
        if neg {
            if mag <= 170141183460469231731687303715884105728 {
                if mag == 170141183460469231731687303715884105728 {
                    Ok(i128::MIN)
                } else {
                    Ok(-(mag as i128))
                }
            } else {
                Err(OutOfRange)
            }
        } else {
            if mag <= i128::MAX as u128 {
                Ok(mag as i128)
            } else {
                Err(OutOfRange)
            }
        }
    }
}

} // verus!
