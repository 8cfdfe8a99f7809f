use vstd::prelude::*;
use vstd::string::StringExecFns;

verus! {

/// How constants are represented in the generated code.
#[derive(Debug, Clone, Copy, PartialEq, Eq, Structural)]
pub enum NumberType {
    /// 32-bit scalar, constants as bit patterns.
    F32Hex,
    /// 32-bit vector lane, constants as broadcast bit patterns.
    F32Simd,
    /// 64-bit scalar, constants as bit patterns.
    F64Hex,
    /// 64-bit vector lane, constants as broadcast bit patterns.
    F64Simd,
}

/// The language of the generated source text.
#[derive(Debug, Clone, Copy, PartialEq, Eq, Structural)]
pub enum Language {
    Rust,
    C,
}

/// The symmetry that a fitted function is known to have.
#[derive(Debug, Clone, Copy, PartialEq, Eq, Structural)]
pub enum Parity {
    Odd,
    Even,
    Neither,
}

/// The number type that a tag names, if any.
pub open spec fn number_type_of(tag: Seq<char>) -> Option<NumberType> {
    if tag == "f32_hex"@ {
        Some(NumberType::F32Hex)
    } else if tag == "f32_simd"@ {
        Some(NumberType::F32Simd)
    } else if tag == "f64_hex"@ {
        Some(NumberType::F64Hex)
    } else if tag == "f64_simd"@ {
        Some(NumberType::F64Simd)
    } else {
        None
    }
}

/// The language that a tag names, if any.
pub open spec fn language_of(tag: Seq<char>) -> Option<Language> {
    if tag == "rust"@ {
        Some(Language::Rust)
    } else if tag == "c"@ {
        Some(Language::C)
    } else {
        None
    }
}

/// Whether two string slices hold the same text.
pub fn same_text(a: &str, b: &str) -> (r: bool)
    ensures
        r == (a@ == b@),
{
    let x = String::from_str(a);
    let y = String::from_str(b);
    x == y
}

impl NumberType {
    /// Whether the constants of this type are 64 bits wide.
    pub open spec fn wide(self) -> bool {
        self == NumberType::F64Hex || self == NumberType::F64Simd
    }

    pub fn is_wide(self) -> (r: bool)
        ensures
            r == self.wide(),
    {
        match self {
            NumberType::F64Hex | NumberType::F64Simd => true,
            _ => false,
        }
    }

    /// Reads a number-type tag.
    pub fn from_tag(tag: &str) -> (r: Option<NumberType>)
        ensures
            r == number_type_of(tag@),
    {
        if same_text(tag, "f32_hex") {
            Some(NumberType::F32Hex)
        } else if same_text(tag, "f32_simd") {
            Some(NumberType::F32Simd)
        } else if same_text(tag, "f64_hex") {
            Some(NumberType::F64Hex)
        } else if same_text(tag, "f64_simd") {
            Some(NumberType::F64Simd)
        } else {
            None
        }
    }
}

impl Language {
    /// Reads a target-language tag.
    pub fn from_tag(tag: &str) -> (r: Option<Language>)
        ensures
            r == language_of(tag@),
    {
        if same_text(tag, "rust") {
            Some(Language::Rust)
        } else if same_text(tag, "c") {
            Some(Language::C)
        } else {
            None
        }
    }
}

} // verus!
