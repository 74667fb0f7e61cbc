//! Uniforms: the values that a shader program reads by name.

use vstd::prelude::*;
use vstd::string::StringExecFns;
use super::gl_translation::DataType;

verus! {

/// A value that can be set under a name in a shader program.
pub trait SettableUniform<T> {
    /// The name of the uniform.
    spec fn name(&self) -> Seq<char>;

    /// The value of the uniform.
    spec fn content(&self) -> T;

    fn get_name(&self) -> (res: String)
        ensures
            res@ == self.name(),
    ;

    fn get_value(&self) -> (res: T)
        ensures
            res == self.content(),
    ;
}

/// Some values of one type under one name.
#[derive(Debug)]
pub struct Uniform<T> {
    pub name: String,
    pub data_type: DataType,
    pub count: i8,
    pub values: Vec<T>,
}

/// A whole number under a name.
#[derive(Debug)]
pub struct UniformInteger {
    pub name: String,
    pub value: i32,
    data_type: DataType,
}

impl UniformInteger {
    pub fn new(name: &str, value: i32) -> (res: UniformInteger)
        ensures
            res.name() == name@,
            res.content() == value,
            res.spec_data_type() == DataType::Int,
    {
        UniformInteger { name: String::from_str(name), value, data_type: DataType::Int }
    }

    /// The type of the value.
    pub closed spec fn spec_data_type(&self) -> DataType {
        self.data_type
    }

    /// The type of the value.
    pub fn get_data_type(&self) -> (res: DataType)
        ensures
            res == self.spec_data_type(),
    {
        self.data_type
    }
}

impl SettableUniform<i32> for UniformInteger {
    closed spec fn name(&self) -> Seq<char> {
        self.name@
    }

    closed spec fn content(&self) -> i32 {
        self.value
    }

    fn get_name(&self) -> (res: String) {
        self.name.clone()
    }

    fn get_value(&self) -> (res: i32) {
        self.value
    }
}

} // verus!
