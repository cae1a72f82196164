//! Integers.

use vstd::prelude::*;

use crate::error::NifError;
use crate::wrapper::{Node, Value};
use super::{NifDecoder, NifEncoder, NifEnv, NifTerm};

verus! {

/// Makes the term of the integer `n`.
pub fn make_int(env: &mut NifEnv, n: i64) -> (term: NifTerm)
    requires
        old(env).alive(),
    ensures
        final(env).owns(term),
        final(env).value(term) == Value::Int(n as int),
        final(env).extends(old(env)),
{
    let slot = env.heap.store(Node::Int(n));
    NifTerm::new(env, slot)
}

/// The integer that `term` refers to.
///
/// # Errors
///
/// `NifError::BadArg` if `term` is not an integer.
pub fn get_int(env: &NifEnv, term: NifTerm) -> (n: Result<i64, NifError>)
    requires
        env.owns(term),
    ensures
        match env.value(term) {
            Value::Int(held) => n is Ok && n->Ok_0 == held,
            _ => n == Err::<i64, NifError>(NifError::BadArg),
        },
{
    match env.heap.read(term.term) {
        Node::Int(n) => Ok(*n),
        _ => Err(NifError::BadArg),
    }
}

impl NifEncoder for i64 {
    open spec fn encoding(&self) -> Value {
        Value::Int(*self as int)
    }

    fn encode(&self, env: &mut NifEnv) -> (term: NifTerm) {
        make_int(env, *self)
    }
}

impl NifDecoder for i64 {
    open spec fn decoding(value: Value) -> Result<i64, NifError> {
        match value {
            Value::Int(n) => if i64::MIN <= n <= i64::MAX {
                Ok(n as i64)
            } else {
                Err(NifError::BadArg)
            },
            _ => Err(NifError::BadArg),
        }
    }

    fn decode(env: &NifEnv, term: NifTerm) -> (decoded: Result<i64, NifError>) {
        get_int(env, term)
    }
}

impl NifEncoder for i32 {
    open spec fn encoding(&self) -> Value {
        Value::Int(*self as int)
    }

    fn encode(&self, env: &mut NifEnv) -> (term: NifTerm) {
        make_int(env, *self as i64)
    }
}

impl NifDecoder for i32 {
    open spec fn decoding(value: Value) -> Result<i32, NifError> {
        match value {
            Value::Int(n) => if i32::MIN <= n <= i32::MAX {
                Ok(n as i32)
            } else {
                Err(NifError::BadArg)
            },
            _ => Err(NifError::BadArg),
        }
    }

    fn decode(env: &NifEnv, term: NifTerm) -> (decoded: Result<i32, NifError>) {
        match get_int(env, term) {
            Ok(n) => if n >= i32::MIN as i64 && n <= i32::MAX as i64 {
                Ok(n as i32)
            } else {
                Err(NifError::BadArg)
            },
            Err(e) => Err(e),
        }
    }
}

impl NifEncoder for u32 {
    open spec fn encoding(&self) -> Value {
        Value::Int(*self as int)
    }

    fn encode(&self, env: &mut NifEnv) -> (term: NifTerm) {
        make_int(env, *self as i64)
    }
}

impl NifDecoder for u32 {
    open spec fn decoding(value: Value) -> Result<u32, NifError> {
        match value {
            Value::Int(n) => if 0 <= n <= u32::MAX {
                Ok(n as u32)
            } else {
                Err(NifError::BadArg)
            },
            _ => Err(NifError::BadArg),
        }
    }

    fn decode(env: &NifEnv, term: NifTerm) -> (decoded: Result<u32, NifError>) {
        match get_int(env, term) {
            Ok(n) => if n >= 0 && n <= u32::MAX as i64 {
                Ok(n as u32)
            } else {
                Err(NifError::BadArg)
            },
            Err(e) => Err(e),
        }
    }
}

impl NifEncoder for u8 {
    open spec fn encoding(&self) -> Value {
        Value::Int(*self as int)
    }

    fn encode(&self, env: &mut NifEnv) -> (term: NifTerm) {
        make_int(env, *self as i64)
    }
}

impl NifDecoder for u8 {
    open spec fn decoding(value: Value) -> Result<u8, NifError> {
        match value {
            Value::Int(n) => if 0 <= n <= u8::MAX {
                Ok(n as u8)
            } else {
                Err(NifError::BadArg)
            },
            _ => Err(NifError::BadArg),
        }
    }

    fn decode(env: &NifEnv, term: NifTerm) -> (decoded: Result<u8, NifError>) {
        match get_int(env, term) {
            Ok(n) => if n >= 0 && n <= u8::MAX as i64 {
                Ok(n as u8)
            } else {
                Err(NifError::BadArg)
            },
            Err(e) => Err(e),
        }
    }
}

} // verus!
