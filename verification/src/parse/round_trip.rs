//! The instruction table read back: the mnemonic of a decoded word encodes to
//! the word again.

use crate::parse::general::{
    lemma_decode_total, lemma_find_name, lemma_first_cover, spec_find_name, spec_first_cover,
    spec_table, AddressCommand, GeneralCommand, GeneralParser, SimpleCommand, INDIRECT,
};
use crate::parse::{CommandInfo, Parser};
use crate::text::{lemma_fields_one, lemma_fields_two, lemma_hex_read_back, spec_fields, spec_hex};
use vstd::prelude::*;

verus! {

/// Whether `name` is made of two or three capital letters.
pub open spec fn spec_is_plain_name(name: Seq<char>) -> bool {
    &&& 2 <= name.len() <= 3
    &&& forall|k: int| 0 <= k < name.len() ==> 'A' <= #[trigger] name[k] <= 'Z'
}

/// Every name of the instruction table is made of two or three capital letters.
pub proof fn lemma_names_plain()
    ensures
        spec_table().len() == 28,
        forall|i: int| 0 <= i < 28 ==> spec_is_plain_name((#[trigger] spec_table()[i]).spec_name()),
{
    reveal_strlit("ROR");
    reveal_strlit("DI");
    reveal_strlit("CLC");
    reveal_strlit("CMC");
    reveal_strlit("ROL");
    reveal_strlit("DEC");
    reveal_strlit("EI");
    reveal_strlit("CLA");
    reveal_strlit("CMA");
    reveal_strlit("INC");
    reveal_strlit("NOP");
    reveal_strlit("OUT");
    reveal_strlit("HLT");
    reveal_strlit("TSF");
    reveal_strlit("IN");
    reveal_strlit("BEQ");
    reveal_strlit("CLF");
    reveal_strlit("MOV");
    reveal_strlit("ADC");
    reveal_strlit("SUB");
    reveal_strlit("BPL");
    reveal_strlit("BMI");
    reveal_strlit("BR");
    reveal_strlit("AND");
    reveal_strlit("ADD");
    reveal_strlit("BCS");
    reveal_strlit("JSR");
    reveal_strlit("ISZ");
    let n0 = spec_table()[0].spec_name();
    assert(n0.len() == 3 && n0[0] == 'R' && n0[1] == 'O' && n0[2] == 'R');
    let n1 = spec_table()[1].spec_name();
    assert(n1.len() == 2 && n1[0] == 'D' && n1[1] == 'I');
    let n2 = spec_table()[2].spec_name();
    assert(n2.len() == 3 && n2[0] == 'C' && n2[1] == 'L' && n2[2] == 'C');
    let n3 = spec_table()[3].spec_name();
    assert(n3.len() == 3 && n3[0] == 'C' && n3[1] == 'M' && n3[2] == 'C');
    let n4 = spec_table()[4].spec_name();
    assert(n4.len() == 3 && n4[0] == 'R' && n4[1] == 'O' && n4[2] == 'L');
    let n5 = spec_table()[5].spec_name();
    assert(n5.len() == 3 && n5[0] == 'D' && n5[1] == 'E' && n5[2] == 'C');
    let n6 = spec_table()[6].spec_name();
    assert(n6.len() == 2 && n6[0] == 'E' && n6[1] == 'I');
    let n7 = spec_table()[7].spec_name();
    assert(n7.len() == 3 && n7[0] == 'C' && n7[1] == 'L' && n7[2] == 'A');
    let n8 = spec_table()[8].spec_name();
    assert(n8.len() == 3 && n8[0] == 'C' && n8[1] == 'M' && n8[2] == 'A');
    let n9 = spec_table()[9].spec_name();
    assert(n9.len() == 3 && n9[0] == 'I' && n9[1] == 'N' && n9[2] == 'C');
    let n10 = spec_table()[10].spec_name();
    assert(n10.len() == 3 && n10[0] == 'N' && n10[1] == 'O' && n10[2] == 'P');
    let n11 = spec_table()[11].spec_name();
    assert(n11.len() == 3 && n11[0] == 'O' && n11[1] == 'U' && n11[2] == 'T');
    let n12 = spec_table()[12].spec_name();
    assert(n12.len() == 3 && n12[0] == 'H' && n12[1] == 'L' && n12[2] == 'T');
    let n13 = spec_table()[13].spec_name();
    assert(n13.len() == 3 && n13[0] == 'T' && n13[1] == 'S' && n13[2] == 'F');
    let n14 = spec_table()[14].spec_name();
    assert(n14.len() == 2 && n14[0] == 'I' && n14[1] == 'N');
    let n15 = spec_table()[15].spec_name();
    assert(n15.len() == 3 && n15[0] == 'B' && n15[1] == 'E' && n15[2] == 'Q');
    let n16 = spec_table()[16].spec_name();
    assert(n16.len() == 3 && n16[0] == 'C' && n16[1] == 'L' && n16[2] == 'F');
    let n17 = spec_table()[17].spec_name();
    assert(n17.len() == 3 && n17[0] == 'M' && n17[1] == 'O' && n17[2] == 'V');
    let n18 = spec_table()[18].spec_name();
    assert(n18.len() == 3 && n18[0] == 'A' && n18[1] == 'D' && n18[2] == 'C');
    let n19 = spec_table()[19].spec_name();
    assert(n19.len() == 3 && n19[0] == 'S' && n19[1] == 'U' && n19[2] == 'B');
    let n20 = spec_table()[20].spec_name();
    assert(n20.len() == 3 && n20[0] == 'B' && n20[1] == 'P' && n20[2] == 'L');
    let n21 = spec_table()[21].spec_name();
    assert(n21.len() == 3 && n21[0] == 'B' && n21[1] == 'M' && n21[2] == 'I');
    let n22 = spec_table()[22].spec_name();
    assert(n22.len() == 2 && n22[0] == 'B' && n22[1] == 'R');
    let n23 = spec_table()[23].spec_name();
    assert(n23.len() == 3 && n23[0] == 'A' && n23[1] == 'N' && n23[2] == 'D');
    let n24 = spec_table()[24].spec_name();
    assert(n24.len() == 3 && n24[0] == 'A' && n24[1] == 'D' && n24[2] == 'D');
    let n25 = spec_table()[25].spec_name();
    assert(n25.len() == 3 && n25[0] == 'B' && n25[1] == 'C' && n25[2] == 'S');
    let n26 = spec_table()[26].spec_name();
    assert(n26.len() == 3 && n26[0] == 'J' && n26[1] == 'S' && n26[2] == 'R');
    let n27 = spec_table()[27].spec_name();
    assert(n27.len() == 3 && n27[0] == 'I' && n27[1] == 'S' && n27[2] == 'Z');
    assert forall|i: int| 0 <= i < 28 implies spec_is_plain_name(
        (#[trigger] spec_table()[i]).spec_name(),
    ) by {
        let n = spec_table()[i].spec_name();
        assert forall|k: int| 0 <= k < n.len() implies 'A' <= #[trigger] n[k] <= 'Z' by {}
    }
}

/// No two entries of the instruction table share a name: the first entry with
/// the name of an entry is that entry.
pub proof fn lemma_names_differ()
    ensures
        forall|i: int|
            0 <= i < 28 ==> spec_find_name(spec_table(), (#[trigger] spec_table()[i]).spec_name())
                == i,
{
    reveal_strlit("ROR");
    reveal_strlit("DI");
    reveal_strlit("CLC");
    reveal_strlit("CMC");
    reveal_strlit("ROL");
    reveal_strlit("DEC");
    reveal_strlit("EI");
    reveal_strlit("CLA");
    reveal_strlit("CMA");
    reveal_strlit("INC");
    reveal_strlit("NOP");
    reveal_strlit("OUT");
    reveal_strlit("HLT");
    reveal_strlit("TSF");
    reveal_strlit("IN");
    reveal_strlit("BEQ");
    reveal_strlit("CLF");
    reveal_strlit("MOV");
    reveal_strlit("ADC");
    reveal_strlit("SUB");
    reveal_strlit("BPL");
    reveal_strlit("BMI");
    reveal_strlit("BR");
    reveal_strlit("AND");
    reveal_strlit("ADD");
    reveal_strlit("BCS");
    reveal_strlit("JSR");
    reveal_strlit("ISZ");
    let n0 = spec_table()[0].spec_name();
    assert(n0.len() == 3 && n0[0] == 'R' && n0[1] == 'O' && n0[2] == 'R');
    let n1 = spec_table()[1].spec_name();
    assert(n1.len() == 2 && n1[0] == 'D' && n1[1] == 'I');
    let n2 = spec_table()[2].spec_name();
    assert(n2.len() == 3 && n2[0] == 'C' && n2[1] == 'L' && n2[2] == 'C');
    let n3 = spec_table()[3].spec_name();
    assert(n3.len() == 3 && n3[0] == 'C' && n3[1] == 'M' && n3[2] == 'C');
    let n4 = spec_table()[4].spec_name();
    assert(n4.len() == 3 && n4[0] == 'R' && n4[1] == 'O' && n4[2] == 'L');
    let n5 = spec_table()[5].spec_name();
    assert(n5.len() == 3 && n5[0] == 'D' && n5[1] == 'E' && n5[2] == 'C');
    let n6 = spec_table()[6].spec_name();
    assert(n6.len() == 2 && n6[0] == 'E' && n6[1] == 'I');
    let n7 = spec_table()[7].spec_name();
    assert(n7.len() == 3 && n7[0] == 'C' && n7[1] == 'L' && n7[2] == 'A');
    let n8 = spec_table()[8].spec_name();
    assert(n8.len() == 3 && n8[0] == 'C' && n8[1] == 'M' && n8[2] == 'A');
    let n9 = spec_table()[9].spec_name();
    assert(n9.len() == 3 && n9[0] == 'I' && n9[1] == 'N' && n9[2] == 'C');
    let n10 = spec_table()[10].spec_name();
    assert(n10.len() == 3 && n10[0] == 'N' && n10[1] == 'O' && n10[2] == 'P');
    let n11 = spec_table()[11].spec_name();
    assert(n11.len() == 3 && n11[0] == 'O' && n11[1] == 'U' && n11[2] == 'T');
    let n12 = spec_table()[12].spec_name();
    assert(n12.len() == 3 && n12[0] == 'H' && n12[1] == 'L' && n12[2] == 'T');
    let n13 = spec_table()[13].spec_name();
    assert(n13.len() == 3 && n13[0] == 'T' && n13[1] == 'S' && n13[2] == 'F');
    let n14 = spec_table()[14].spec_name();
    assert(n14.len() == 2 && n14[0] == 'I' && n14[1] == 'N');
    let n15 = spec_table()[15].spec_name();
    assert(n15.len() == 3 && n15[0] == 'B' && n15[1] == 'E' && n15[2] == 'Q');
    let n16 = spec_table()[16].spec_name();
    assert(n16.len() == 3 && n16[0] == 'C' && n16[1] == 'L' && n16[2] == 'F');
    let n17 = spec_table()[17].spec_name();
    assert(n17.len() == 3 && n17[0] == 'M' && n17[1] == 'O' && n17[2] == 'V');
    let n18 = spec_table()[18].spec_name();
    assert(n18.len() == 3 && n18[0] == 'A' && n18[1] == 'D' && n18[2] == 'C');
    let n19 = spec_table()[19].spec_name();
    assert(n19.len() == 3 && n19[0] == 'S' && n19[1] == 'U' && n19[2] == 'B');
    let n20 = spec_table()[20].spec_name();
    assert(n20.len() == 3 && n20[0] == 'B' && n20[1] == 'P' && n20[2] == 'L');
    let n21 = spec_table()[21].spec_name();
    assert(n21.len() == 3 && n21[0] == 'B' && n21[1] == 'M' && n21[2] == 'I');
    let n22 = spec_table()[22].spec_name();
    assert(n22.len() == 2 && n22[0] == 'B' && n22[1] == 'R');
    let n23 = spec_table()[23].spec_name();
    assert(n23.len() == 3 && n23[0] == 'A' && n23[1] == 'N' && n23[2] == 'D');
    let n24 = spec_table()[24].spec_name();
    assert(n24.len() == 3 && n24[0] == 'A' && n24[1] == 'D' && n24[2] == 'D');
    let n25 = spec_table()[25].spec_name();
    assert(n25.len() == 3 && n25[0] == 'B' && n25[1] == 'C' && n25[2] == 'S');
    let n26 = spec_table()[26].spec_name();
    assert(n26.len() == 3 && n26[0] == 'J' && n26[1] == 'S' && n26[2] == 'R');
    let n27 = spec_table()[27].spec_name();
    assert(n27.len() == 3 && n27[0] == 'I' && n27[1] == 'S' && n27[2] == 'Z');
    assert forall|i: int| 0 <= i < 28 implies spec_find_name(
        spec_table(),
        (#[trigger] spec_table()[i]).spec_name(),
    ) == i by {
        let name = spec_table()[i].spec_name();
        lemma_find_name(spec_table(), name);
        let r = spec_find_name(spec_table(), name);
        if r < i {
            assert(spec_table()[r].spec_name() == name);
        }
    }
}

/// The word that stands for all words with the mnemonic of `opcode`: the mask
/// of the instruction that `opcode` decodes to, and with it the bits of
/// `opcode` that the mnemonic shows. An instruction without an operand shows
/// none; one with an address shows bit 11 and the 11 bits of the address; one
/// with a device shows bit 11 and the 4 bits of the device.
pub open spec fn spec_canonical(opcode: u16) -> u16 {
    match spec_table()[spec_first_cover(spec_table(), opcode)] {
        GeneralCommand::Simple(c) => c.mask,
        GeneralCommand::Address(c) => if c.io {
            c.mask | (opcode & 0x080F)
        } else {
            c.mask | (opcode & 0x0FFF)
        },
    }
}

/// The mnemonic of an instruction without an operand encodes to its mask.
proof fn lemma_simple_round_trip(c: SimpleCommand, data: u16)
    requires
        spec_is_plain_name(c.name@),
    ensures
        c.spec_rev_parse(c.spec_parse(data)) == Ok::<u16, Seq<char>>(c.mask),
        spec_fields(c.spec_parse(data)) == seq![c.name@],
{
    lemma_fields_one(c.name@);
}

/// The mnemonic of an instruction with an operand encodes to the mask, the
/// operand and bit 11 of the word that it was made from.
proof fn lemma_address_round_trip(c: AddressCommand, data: u16)
    requires
        spec_is_plain_name(c.name@),
    ensures
        c.spec_rev_parse(c.spec_parse(data)) == Ok::<u16, Seq<char>>(
            if c.io {
                c.mask | (data & 0x080F)
            } else {
                c.mask | (data & 0x0FFF)
            },
        ),
        spec_fields(c.spec_parse(data)).len() == 2,
        spec_fields(c.spec_parse(data))[0] == c.name@,
{
    reveal_strlit(" ");
    reveal_strlit(" (");
    reveal_strlit(")");
    let name = c.name@;
    let operand = c.spec_operand(data);
    let m = c.mask;
    assert(data & 0x000Fu16 <= 0x000F && data & 0x07FFu16 <= 0x07FF && (data & 0x0800u16 != 0 ==> (
    m | (data & 0x000Fu16)) | 0x0800u16 == m | (data & 0x080Fu16) && (m | (data & 0x07FFu16))
        | 0x0800u16 == m | (data & 0x0FFFu16)) && (data & 0x0800u16 == 0 ==> m | (data & 0x000Fu16)
        == m | (data & 0x080Fu16) && m | (data & 0x07FFu16) == m | (data & 0x0FFFu16)))
        by (bit_vector);
    let t = spec_hex(operand as nat, 3);
    lemma_hex_read_back(operand, 3);
    let text = c.spec_parse(data);
    if data & INDIRECT != 0 {
        let u = seq!['('] + t + seq![')'];
        assert(text =~= name + seq![' '] + u);
        lemma_fields_two(name, u);
        assert(u.subrange(1, u.len() - 1) =~= t);
    } else {
        assert(text =~= name + seq![' '] + t);
        lemma_fields_two(name, t);
    }
}

/// Decoding a word and encoding its mnemonic gives the word's canonical form.
/// It gives the word itself where the word has no bit beyond its instruction's
/// mask and operand.
pub proof fn lemma_round_trip(parser: &GeneralParser, opcode: u16)
    ensures
        parser.spec_rev_parse(parser.spec_parse(opcode).spec_mnemonic()) == Ok::<u16, Seq<char>>(
            spec_canonical(opcode),
        ),
        spec_canonical(opcode) == opcode ==> parser.spec_rev_parse(
            parser.spec_parse(opcode).spec_mnemonic(),
        ) == Ok::<u16, Seq<char>>(opcode),
{
    lemma_decode_total(opcode);
    lemma_names_plain();
    lemma_names_differ();
    let i = spec_first_cover(spec_table(), opcode);
    let command = spec_table()[i];
    assert(spec_is_plain_name(command.spec_name()));
    assert(spec_find_name(spec_table(), command.spec_name()) == i);
    match command {
        GeneralCommand::Simple(c) => {
            lemma_simple_round_trip(c, opcode);
        },
        GeneralCommand::Address(c) => {
            lemma_address_round_trip(c, opcode);
        },
    }
}

/// The canonical form of a word decodes to the same instruction as the word,
/// has the same mnemonic, and is its own canonical form: among the words that
/// an instruction covers by the overlap of masks alone, the canonical one
/// stands for all.
pub proof fn lemma_canonical(parser: &GeneralParser, opcode: u16)
    ensures
        spec_first_cover(spec_table(), spec_canonical(opcode)) == spec_first_cover(
            spec_table(),
            opcode,
        ),
        parser.spec_parse(spec_canonical(opcode)).spec_mnemonic() == parser.spec_parse(
            opcode,
        ).spec_mnemonic(),
        spec_canonical(spec_canonical(opcode)) == spec_canonical(opcode),
{
    lemma_decode_total(opcode);
    lemma_first_cover(spec_table(), opcode);
    let i = spec_first_cover(spec_table(), opcode);
    let command = spec_table()[i];
    let m = command.spec_mask();
    let canonical = spec_canonical(opcode);
    assert(opcode & m == m ==> (m & m == m && (m | (opcode & 0x080Fu16)) & m == m && (m | (opcode
        & 0x0FFFu16)) & m == m && m & opcode == m && (m | (opcode & 0x080Fu16)) & opcode == (m | (
    opcode & 0x080Fu16)) && (m | (opcode & 0x0FFFu16)) & opcode == (m | (opcode & 0x0FFFu16))))
        by (bit_vector);
    assert(command.spec_covers(canonical));
    assert(canonical & opcode == canonical);
    assert forall|j: int| 0 <= j < i implies !(#[trigger] spec_table()[j]).spec_covers(
        canonical,
    ) by {
        let mj = spec_table()[j].spec_mask();
        assert(canonical & opcode == canonical && opcode & mj != mj ==> canonical & mj != mj)
            by (bit_vector);
    }
    lemma_decode_total(canonical);
    lemma_first_cover(spec_table(), canonical);
    assert(spec_first_cover(spec_table(), canonical) == i);
    assert((m & 0x0FFFu16 == 0 ==> (m | (opcode & 0x0FFFu16)) & 0x07FFu16 == opcode & 0x07FFu16
        && (m | (opcode & 0x0FFFu16)) & 0x0800u16 == opcode & 0x0800u16 && m | ((m | (opcode
        & 0x0FFFu16)) & 0x0FFFu16) == m | (opcode & 0x0FFFu16)) && (m & 0x080Fu16 == 0 ==> (m | (
    opcode & 0x080Fu16)) & 0x000Fu16 == opcode & 0x000Fu16 && (m | (opcode & 0x080Fu16)) & 0x0800u16
        == opcode & 0x0800u16 && m | ((m | (opcode & 0x080Fu16)) & 0x080Fu16) == m | (opcode
        & 0x080Fu16))) by (bit_vector);
    lemma_masks_leave_operands();
}

/// No mask of an instruction with an operand reaches into the bits of its
/// operand or into bit 11.
pub proof fn lemma_masks_leave_operands()
    ensures
        forall|i: int|
            0 <= i < 28 ==> (match #[trigger] spec_table()[i] {
                GeneralCommand::Simple(c) => true,
                GeneralCommand::Address(c) => if c.io {
                    c.mask & 0x080F == 0
                } else {
                    c.mask & 0x0FFF == 0
                },
            }),
{
    assert(0xE300u16 & 0x080F == 0 && 0xE100u16 & 0x080F == 0 && 0xE200u16 & 0x080F == 0 && 0xE000u16
        & 0x080F == 0 && 0xB000u16 & 0x0FFF == 0 && 0x3000u16 & 0x0FFF == 0 && 0x5000u16 & 0x0FFF
        == 0 && 0x6000u16 & 0x0FFF == 0 && 0x9000u16 & 0x0FFF == 0 && 0xA000u16 & 0x0FFF == 0
        && 0xC000u16 & 0x0FFF == 0 && 0x1000u16 & 0x0FFF == 0 && 0x4000u16 & 0x0FFF == 0 && 0x8000u16
        & 0x0FFF == 0 && 0x2000u16 & 0x0FFF == 0 && 0x0000u16 & 0x0FFF == 0) by (bit_vector);
}

} // verus!
