//! Choices and text of the left panel (registers, call stack, locals).

use vstd::prelude::*;
use crate::text::{dec_digits, push_char, push_decimal};
use crate::text::{decimal_value, law_decimal_round_trip};

verus! {

/// Active tab in the left panel.
#[derive(Debug, Clone, Copy, PartialEq, Eq, Structural)]
pub enum LeftPanelTab {
    Registers,
    Stack,
    Locals,
}

/// The name of window register `i` as the register grid shows it: "a"
/// and the number, left-aligned in two columns ("a0 ", "a15").
pub open spec fn register_name_spec(i: nat) -> Seq<char> {
    if i < 10 {
        seq!['a'] + dec_digits(i) + seq![' ']
    } else {
        seq!['a'] + dec_digits(i)
    }
}

/// The name of window register `i` in the register grid.
pub fn register_name(i: u32) -> (s: String)
    ensures
        s@ == register_name_spec(i as nat),
{
    let mut s = String::new();
    push_char(&mut s, 'a');
    push_decimal(&mut s, i as u64);
    if i < 10 {
        push_char(&mut s, ' ');
    }
    assert(s@ =~= register_name_spec(i as nat));
    s
}

/// The note beside register `i`: a0 holds the return address and a1 the
/// stack pointer.
pub open spec fn register_note_spec(i: nat) -> Seq<char> {
    if i == 0 {
        "(RA)"@
    } else if i == 1 {
        "(SP)"@
    } else {
        ""@
    }
}

/// The note beside register `i` in the register grid.
pub fn register_note(i: u32) -> (s: String)
    ensures
        s@ == register_note_spec(i as nat),
{
    if i == 0 {
        String::from_str("(RA)")
    } else if i == 1 {
        String::from_str("(SP)")
    } else {
        String::from_str("")
    }
}

/// One row of the call-stack tab: its label, address and description.
pub struct StackRow {
    pub label: String,
    pub address: u32,
    pub description: String,
}

/// The rows of the call-stack tab: the program counter with its symbol
/// (or "<unknown>"), then, when a0 is not zero, the return address in a0
/// as the caller.
pub open spec fn call_stack_spec(pc: u32, pc_symbol: Option<Seq<char>>, a0: u32) -> Seq<(Seq<char>, u32, Seq<char>)> {
    let top = (
        "#0"@,
        pc,
        match pc_symbol {
            Some(sym) => sym,
            None => "<unknown>"@,
        },
    );
    if a0 != 0 {
        seq![top, ("#1"@, a0, "<caller>"@)]
    } else {
        seq![top]
    }
}

/// The content of stack rows.
pub open spec fn stack_rows_view(rows: Seq<StackRow>) -> Seq<(Seq<char>, u32, Seq<char>)> {
    rows.map_values(|r: StackRow| (r.label@, r.address, r.description@))
}

/// The rows of the call-stack tab.
pub fn call_stack(pc: u32, pc_symbol: &Option<String>, a0: u32) -> (rows: Vec<StackRow>)
    ensures
        stack_rows_view(rows@) == call_stack_spec(
            pc,
            match pc_symbol {
                Some(s) => Some(s@),
                None => None,
            },
            a0,
        ),
{
    let description = match pc_symbol {
        Some(sym) => sym.clone(),
        None => String::from_str("<unknown>"),
    };
    let mut rows: Vec<StackRow> = Vec::new();
    rows.push(StackRow { label: String::from_str("#0"), address: pc, description });
    if a0 != 0 {
        rows.push(StackRow { label: String::from_str("#1"), address: a0, description: String::from_str("<caller>") });
    }
    proof {
        let sym = match pc_symbol {
            Some(s) => Some(s@),
            None => None,
        };
        assert(stack_rows_view(rows@) =~= call_stack_spec(pc, sym, a0));
    }
    rows
}

/// The label of the locals row for register `i` (2 to 7): "a{i} (arg{i-2})".
pub open spec fn arg_label_spec(i: nat) -> Seq<char> {
    seq!['a'] + dec_digits(i) + " (arg"@ + dec_digits((i - 2) as nat) + ")"@
}

/// The rows of the locals tab: the stack pointer (a1), then a2 to a7 as the
/// function's possible arguments, each with its register value.
pub fn locals_rows(registers: &[u32; 16]) -> (rows: Vec<(String, u32)>)
    ensures
        rows@.len() == 7,
        rows@[0].0@ == "SP (a1)"@,
        rows@[0].1 == registers@[1],
        forall|k: int| 1 <= k < 7 ==> (#[trigger] rows@[k]).0@ == arg_label_spec((k + 1) as nat) && rows@[k].1
            == registers@[k + 1],
{
    let mut rows: Vec<(String, u32)> = Vec::new();
    rows.push((String::from_str("SP (a1)"), registers[1]));
    let mut i: u32 = 2;
    while i < 8
        invariant
            2 <= i <= 8,
            rows@.len() == i - 1,
            rows@[0].0@ == "SP (a1)"@,
            rows@[0].1 == registers@[1],
            forall|k: int| 1 <= k < i - 1 ==> (#[trigger] rows@[k]).0@ == arg_label_spec((k + 1) as nat)
                && rows@[k].1 == registers@[k + 1],
        decreases 8 - i,
    {
        let mut label = String::new();
        push_char(&mut label, 'a');
        push_decimal(&mut label, i as u64);
        label.append(" (arg");
        push_decimal(&mut label, (i - 2) as u64);
        label.append(")");
        assert(label@ =~= arg_label_spec(i as nat));
        rows.push((label, registers[i as usize]));
        i = i + 1;
    }
    rows
}

/// The call stack always starts with the PC as row "#0", described by its
/// symbol when one is known and as "<unknown>" otherwise; a second row,
/// "#1" for the return address in a0 marked "<caller>", is there exactly
/// when a0 is not zero, whether or not the PC's symbol is known.
pub proof fn law_call_stack_rows(pc: u32, pc_symbol: Option<Seq<char>>, a0: u32)
    ensures
        call_stack_spec(pc, pc_symbol, a0).len() == (if a0 != 0 { 2int } else { 1int }),
        call_stack_spec(pc, pc_symbol, a0)[0].0 == "#0"@,
        call_stack_spec(pc, pc_symbol, a0)[0].1 == pc,
        pc_symbol is Some ==> call_stack_spec(pc, pc_symbol, a0)[0].2 == pc_symbol->0,
        pc_symbol is None ==> call_stack_spec(pc, pc_symbol, a0)[0].2 == "<unknown>"@,
        a0 != 0 ==> call_stack_spec(pc, pc_symbol, a0)[1] == ("#1"@, a0, "<caller>"@),
        call_stack_spec(pc, pc_symbol, a0).len() == call_stack_spec(pc, None, a0).len(),
{
}

/// Every register name below 100 is three characters wide: "a", then the
/// register number in decimal, padded on the right with a space when it
/// has one digit.
pub proof fn law_register_name_shape(i: nat)
    requires
        i < 100,
    ensures
        register_name_spec(i).len() == 3,
        register_name_spec(i)[0] == 'a',
        i < 10 ==> register_name_spec(i)[2] == ' ' && decimal_value(register_name_spec(i).subrange(1, 2)) == i,
        i >= 10 ==> decimal_value(register_name_spec(i).subrange(1, 3)) == i,
{
    law_decimal_round_trip(i);
    let s = register_name_spec(i);
    if i < 10 {
        assert(dec_digits(i).len() == 1);
        assert(s.subrange(1, 2) =~= dec_digits(i));
    } else {
        assert(dec_digits(i / 10).len() == 1);
        assert(dec_digits(i).len() == 2);
        assert(s.subrange(1, 3) =~= dec_digits(i));
    }
}

/// Only a0 and a1 carry a note: a0 is marked as the return address and a1
/// as the stack pointer; every other register has none.
pub proof fn law_register_notes(i: nat)
    ensures
        register_note_spec(0) == "(RA)"@,
        register_note_spec(1) == "(SP)"@,
        i >= 2 ==> register_note_spec(i) == ""@,
{
}

} // verus!
