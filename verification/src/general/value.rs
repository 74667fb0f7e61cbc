//! The values that components exchange through their stores.

use vstd::prelude::*;

verus! {

/// A value of one of a few kinds, for data that components written apart
/// from each other pass through a store.
#[derive(Debug)]
pub enum Value {
    Null,
    Bool(bool),
    Number(i64),
    String(String),
    Array(Vec<Value>),
    Object(Vec<(String, Value)>),
    Vec2(i64, i64),
}

impl Value {
    /// The number that the value holds, if it is a number.
    pub fn as_number(&self) -> (res: Option<i64>)
        ensures
            res == (match *self {
                Value::Number(n) => Some(n),
                _ => None,
            }),
    {
        match self {
            Value::Number(n) => Some(*n),
            _ => None,
        }
    }

    /// The pair that the value holds, if it is a pair.
    pub fn as_vec2(&self) -> (res: Option<(i64, i64)>)
        ensures
            res == (match *self {
                Value::Vec2(a, b) => Some((a, b)),
                _ => None,
            }),
    {
        match self {
            Value::Vec2(a, b) => Some((*a, *b)),
            _ => None,
        }
    }
}

} // verus!
