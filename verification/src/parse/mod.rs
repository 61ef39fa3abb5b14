//! Decoding memory words into instructions and encoding mnemonics back.

use vstd::prelude::*;

pub mod describe;
pub mod file;
pub mod general;
pub mod mc;
pub mod round_trip;

verus! {

/// What a `Result` with a text as its error holds, the text by its characters.
pub open spec fn result_view(r: Result<u16, String>) -> Result<u16, Seq<char>> {
    match r {
        Ok(v) => Ok(v),
        Err(e) => Err(e@),
    }
}

/// A decoded memory word, as the tools around the machine show it.
pub trait CommandInfo {
    /// The text that stands for the word in a saved program.
    spec fn spec_file_string(&self) -> Seq<char>;

    /// The mnemonic of the word.
    spec fn spec_mnemonic(&self) -> Seq<char>;

    fn file_string(&self) -> (s: String)
        ensures
            s@ == self.spec_file_string(),
    ;

    fn mnemonic(&self) -> (s: String)
        ensures
            s@ == self.spec_mnemonic(),
    ;
}

/// The codec of one memory bank: it decodes every word, and encodes a mnemonic
/// where the bank's instruction set has mnemonics that can be read back.
pub trait Parser<T: CommandInfo> {
    spec fn spec_parse(&self, opcode: u16) -> T;

    spec fn spec_supports_rev_parse(&self) -> bool;

    spec fn spec_rev_parse(&self, s: Seq<char>) -> Result<u16, Seq<char>>;

    /// Decodes `opcode`. Every word decodes.
    fn parse(&self, opcode: u16) -> (info: T)
        ensures
            info == self.spec_parse(opcode),
    ;

    fn supports_rev_parse(&self) -> (b: bool)
        ensures
            b == self.spec_supports_rev_parse(),
    ;

    /// Encodes the mnemonic `s`, or says why it cannot be encoded.
    fn rev_parse(&self, s: &str) -> (r: Result<u16, String>)
        requires
            self.spec_supports_rev_parse(),
        ensures
            result_view(r) == self.spec_rev_parse(s@),
    ;
}

} // verus!
