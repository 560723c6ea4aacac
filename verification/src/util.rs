use vstd::prelude::*;
use crate::text::same_text;

verus! {

/// Whether `sym` is one of the reserved symbols: the names of the special
/// forms and of the built-in constructors, which cannot be bound.
pub open spec fn reserved_symbol(sym: Seq<char>) -> bool {
    ||| sym == "do"@
    ||| sym == "ann"@
    ||| sym == "let"@
    ||| sym == "if"@
    ||| sym == "for"@
    ||| sym == "for_each"@
    ||| sym == "eval"@
    ||| sym == "quot"@
    ||| sym == "use"@
    ||| sym == "Char"@
    ||| sym == "Func"@
    ||| sym == "Macro"@
    ||| sym == "List"@
    ||| sym == "Array"@
    ||| sym == "Dict"@
}

/// Returns true if `sym` is reserved.
pub fn is_reserved_symbol(sym: &str) -> (b: bool)
    ensures
        b == reserved_symbol(sym@),
{
    same_text(sym, "do") || same_text(sym, "ann") || same_text(sym, "let") || same_text(sym, "if")
        || same_text(sym, "for") || same_text(sym, "for_each") || same_text(sym, "eval")
        || same_text(sym, "quot") || same_text(sym, "use") || same_text(sym, "Char") || same_text(
        sym,
        "Func",
    ) || same_text(sym, "Macro") || same_text(sym, "List") || same_text(sym, "Array") || same_text(
        sym,
        "Dict",
    )
}

/// The `Break` is returned when a pass processor cannot synchronize to
/// continue processing to detect more errors. Processing is stopped
/// immediately. Typically signals non-recoverable errors or end of input.
#[derive(Debug, Clone, Copy, PartialEq, Eq, Structural)]
pub struct Break {}

impl Break {
    /// The text that names this signal.
    pub fn to_string(&self) -> (s: String)
        ensures
            s@ == "Break"@,
    {
        String::from_str("Break")
    }
}

} // verus!
