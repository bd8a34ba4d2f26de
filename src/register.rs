use vstd::prelude::*;

verus! {

/// The abstract value of a register: an integer or a string of characters.
pub enum RegisterModel {
    Integer(u32),
    Text(Seq<char>),
}

/// One slot of typed storage. Exactly one representation is active at a time.
pub enum Register {
    Integer(u32),
    Text(String),
}

impl View for Register {
    type V = RegisterModel;

    open spec fn view(&self) -> RegisterModel {
        match self {
            Register::Integer(v) => RegisterModel::Integer(*v),
            Register::Text(s) => RegisterModel::Text(s@),
        }
    }
}

impl Register {
    /// Whether the register currently holds an integer.
    pub fn is_integer(&self) -> (r: bool)
        ensures
            r == (self@ is Integer),
    {
        match self {
            Register::Integer(_) => true,
            Register::Text(_) => false,
        }
    }

    /// Whether the register currently holds a string.
    pub fn is_text(&self) -> (r: bool)
        ensures
            r == (self@ is Text),
    {
        match self {
            Register::Integer(_) => false,
            Register::Text(_) => true,
        }
    }
}

} // verus!
