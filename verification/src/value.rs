//! The values that Neovim sends.

use vstd::prelude::*;

verus! {

/// A value that Neovim sends. A string need not be UTF-8. What is never looked
/// into is `Other`.
#[derive(Debug)]
pub enum NvimValue {
    Nil,
    Boolean(bool),
    Unsigned(u64),
    Negative(i64),
    Str(String),
    BrokenStr,
    Array(Vec<NvimValue>),
    Other,
}

impl NvimValue {
    /// The text, if the value is one.
    pub fn as_str(&self) -> (r: Option<&str>)
        ensures
            match r {
                Some(s) => self matches NvimValue::Str(t) && s@ == t@,
                None => self !is Str,
            },
    {
        match self {
            NvimValue::Str(s) => Some(s.as_str()),
            _ => None,
        }
    }

    /// The number, if the value is one that is not negative.
    pub fn as_u64(&self) -> (r: Option<u64>)
        ensures
            match r {
                Some(n) => *self == NvimValue::Unsigned(n),
                None => self !is Unsigned,
            },
    {
        match self {
            NvimValue::Unsigned(n) => Some(*n),
            _ => None,
        }
    }

    /// Whether the value is this text.
    pub open spec fn is_text(self, s: Seq<char>) -> bool {
        self matches NvimValue::Str(t) && t@ == s
    }

    /// Whether the value is this text.
    pub fn equals(&self, s: &str) -> (r: bool)
        ensures
            r == self.is_text(s@),
    {
        match self {
            NvimValue::Str(t) => *t == s.to_string(),
            _ => false,
        }
    }
}

} // verus!
