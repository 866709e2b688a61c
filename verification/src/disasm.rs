use vstd::prelude::*;
use vstd::string::StringExecFns;

use crate::cpu::fetched;
use crate::decode::{decode, op_addr, op_family, op_kk, op_n, op_x, op_y};

verus! {

/// One disassembled instruction: the raw word, where it sits in memory,
/// and its assembly-style rendering.
pub struct Instruction {
    pub bytes: u16,
    pub address: u16,
    pub opcode: String,
}

/// Upper-case hexadecimal digit for a nibble.
pub open spec fn hex_upper(n: u8) -> char {
    if n == 0 {
        '0'
    } else if n == 1 {
        '1'
    } else if n == 2 {
        '2'
    } else if n == 3 {
        '3'
    } else if n == 4 {
        '4'
    } else if n == 5 {
        '5'
    } else if n == 6 {
        '6'
    } else if n == 7 {
        '7'
    } else if n == 8 {
        '8'
    } else if n == 9 {
        '9'
    } else if n == 10 {
        'A'
    } else if n == 11 {
        'B'
    } else if n == 12 {
        'C'
    } else if n == 13 {
        'D'
    } else if n == 14 {
        'E'
    } else {
        'F'
    }
}

/// Lower-case hexadecimal digit for a nibble.
pub open spec fn hex_lower(n: u8) -> char {
    if n == 10 {
        'a'
    } else if n == 11 {
        'b'
    } else if n == 12 {
        'c'
    } else if n == 13 {
        'd'
    } else if n == 14 {
        'e'
    } else if n == 15 {
        'f'
    } else {
        hex_upper(n)
    }
}

/// One upper-case hexadecimal digit.
pub open spec fn hex1(n: u8) -> Seq<char> {
    seq![hex_upper(n)]
}

/// One lower-case hexadecimal digit.
pub open spec fn hex1_lower(n: u8) -> Seq<char> {
    seq![hex_lower(n)]
}

/// A byte as two upper-case hexadecimal digits.
pub open spec fn hex2(n: u8) -> Seq<char> {
    seq![hex_upper(n / 16), hex_upper(n % 16)]
}

/// A 12-bit address as three upper-case hexadecimal digits.
pub open spec fn hex3(a: u16) -> Seq<char> {
    seq![hex_upper((a / 256 % 16) as u8), hex_upper((a / 16 % 16) as u8), hex_upper((a % 16) as u8)]
}

/// The assembly-style rendering of one instruction word; `??` for the
/// nibble combinations no opcode claims.
pub open spec fn instruction_text(w: u16) -> Seq<char> {
    let x = op_x(w);
    let y = op_y(w);
    let n = op_n(w);
    let kk = op_kk(w);
    let addr = op_addr(w);
    let f = op_family(w);
    if f == 0 {
        if kk == 0xE0 {
            "CLS"@
        } else if kk == 0xEE {
            "RET"@
        } else {
            "SYS 0x"@ + hex3(addr)
        }
    } else if f == 1 {
        "JMP 0x"@ + hex3(addr)
    } else if f == 2 {
        "CALL 0x"@ + hex3(addr)
    } else if f == 3 {
        "SE V"@ + hex1(x) + ", 0x"@ + hex2(kk)
    } else if f == 4 {
        "SNE V"@ + hex1(x) + ", 0x"@ + hex2(kk)
    } else if f == 5 {
        "SE V"@ + hex1(x) + ", V"@ + hex1(y)
    } else if f == 6 {
        "LD V"@ + hex1(x) + ", 0x"@ + hex2(kk)
    } else if f == 7 {
        "ADD V"@ + hex1(x) + ", 0x"@ + hex2(kk)
    } else if f == 8 {
        if n == 0 {
            "LD V"@ + hex1(x) + ", V"@ + hex1(y)
        } else if n == 1 {
            "OR V"@ + hex1(x) + ", V"@ + hex1(y)
        } else if n == 2 {
            "AND V"@ + hex1(x) + ", V"@ + hex1(y)
        } else if n == 3 {
            "XOR V"@ + hex1(x) + ", V"@ + hex1(y)
        } else if n == 4 {
            "ADD V"@ + hex1(x) + ", V"@ + hex1(y)
        } else if n == 5 {
            "SUB V"@ + hex1(x) + ", V"@ + hex1(y)
        } else if n == 6 {
            "SHR V"@ + hex1(x)
        } else if n == 7 {
            "SUBN V"@ + hex1(x) + ", V"@ + hex1(y)
        } else if n == 0xE {
            "SHL V"@ + hex1(x)
        } else {
            "??"@
        }
    } else if f == 9 {
        "SNE V"@ + hex1(x) + ", V"@ + hex1(y)
    } else if f == 0xA {
        "LD I, 0x"@ + hex3(addr)
    } else if f == 0xB {
        "JP V0, 0x"@ + hex3(addr)
    } else if f == 0xC {
        "RND V"@ + hex1(x) + ", 0x"@ + hex2(kk)
    } else if f == 0xD {
        "DRW V"@ + hex1(x) + ", V"@ + hex1(y) + ", 0x"@ + hex1_lower(n)
    } else if f == 0xE {
        if kk == 0x9E {
            "SKP V"@ + hex1(x)
        } else if kk == 0xA1 {
            "SKNP V"@ + hex1(x)
        } else {
            "??"@
        }
    } else {
        if kk == 0x07 {
            "LD V"@ + hex1(x) + ", DT"@
        } else if kk == 0x0A {
            "LD V"@ + hex1(x) + ", K"@
        } else if kk == 0x15 {
            "LD DT, V"@ + hex1(x)
        } else if kk == 0x18 {
            "LD ST, V"@ + hex1(x)
        } else if kk == 0x1E {
            "ADD I, V"@ + hex1(x)
        } else if kk == 0x29 {
            "LD F, V"@ + hex1(x)
        } else if kk == 0x33 {
            "LD B, V"@ + hex1(x)
        } else if kk == 0x55 {
            "LD [I], V"@ + hex1(x)
        } else if kk == 0x65 {
            "LD V"@ + hex1(x) + ", [I]"@
        } else {
            "??"@
        }
    }
}

/// Relies on String::push of std: appends the given char to the end of
/// the string.  vstd specifies the other String methods used here but not
/// this one.
pub assume_specification[ String::push ](s: &mut String, ch: char)
    ensures
        final(s)@ == old(s)@.push(ch),
;

/// A byte as two lower-case hexadecimal digits.
pub open spec fn hex2_lower(n: u8) -> Seq<char> {
    seq![hex_lower(n / 16), hex_lower(n % 16)]
}

/// A run of bytes as lower-case hexadecimal pairs, each followed by one
/// space.
pub open spec fn hex_text(bytes: Seq<u8>) -> Seq<char>
    decreases bytes.len(),
{
    if bytes.len() == 0 {
        Seq::empty()
    } else {
        hex_text(bytes.drop_last()) + hex2_lower(bytes.last()) + " "@
    }
}

/// A byte for the text column of a memory dump: itself where it is a
/// printable ASCII character, a dot everywhere else.
pub open spec fn ascii_char(b: u8) -> char {
    if 0x20 <= b <= 0x7E {
        b as char
    } else {
        '.'
    }
}

/// A run of bytes as the text column of a memory dump.
pub open spec fn ascii_text(bytes: Seq<u8>) -> Seq<char> {
    Seq::new(bytes.len(), |i: int| ascii_char(bytes[i]))
}

/// Append one nibble as an upper-case hexadecimal digit.
fn push_hex1_upper(s: &mut String, n: u8)
    requires
        n < 16,
    ensures
        final(s)@ == old(s)@ + hex1(n),
{
    let d: &str = match n {
        0 => "0",
        1 => "1",
        2 => "2",
        3 => "3",
        4 => "4",
        5 => "5",
        6 => "6",
        7 => "7",
        8 => "8",
        9 => "9",
        10 => "A",
        11 => "B",
        12 => "C",
        13 => "D",
        14 => "E",
        _ => "F",
    };
    proof {
        reveal_strlit("0");
        reveal_strlit("1");
        reveal_strlit("2");
        reveal_strlit("3");
        reveal_strlit("4");
        reveal_strlit("5");
        reveal_strlit("6");
        reveal_strlit("7");
        reveal_strlit("8");
        reveal_strlit("9");
        reveal_strlit("A");
        reveal_strlit("B");
        reveal_strlit("C");
        reveal_strlit("D");
        reveal_strlit("E");
        reveal_strlit("F");
        assert(d@ =~= hex1(n));
    }
    s.append(d);
}

/// Append one nibble as a lower-case hexadecimal digit.
fn push_hex1_lower(s: &mut String, n: u8)
    requires
        n < 16,
    ensures
        final(s)@ == old(s)@ + hex1_lower(n),
{
    let d: &str = match n {
        0 => "0",
        1 => "1",
        2 => "2",
        3 => "3",
        4 => "4",
        5 => "5",
        6 => "6",
        7 => "7",
        8 => "8",
        9 => "9",
        10 => "a",
        11 => "b",
        12 => "c",
        13 => "d",
        14 => "e",
        _ => "f",
    };
    proof {
        reveal_strlit("0");
        reveal_strlit("1");
        reveal_strlit("2");
        reveal_strlit("3");
        reveal_strlit("4");
        reveal_strlit("5");
        reveal_strlit("6");
        reveal_strlit("7");
        reveal_strlit("8");
        reveal_strlit("9");
        reveal_strlit("a");
        reveal_strlit("b");
        reveal_strlit("c");
        reveal_strlit("d");
        reveal_strlit("e");
        reveal_strlit("f");
        assert(d@ =~= hex1_lower(n));
    }
    s.append(d);
}

/// Append a byte as two upper-case hexadecimal digits.
fn push_hex2(s: &mut String, n: u8)
    ensures
        final(s)@ == old(s)@ + hex2(n),
{
    push_hex1_upper(s, n / 16);
    push_hex1_upper(s, n % 16);
    proof {
        assert(s@ =~= old(s)@ + hex2(n));
    }
}

/// Append a 12-bit address as three upper-case hexadecimal digits.
fn push_hex3(s: &mut String, a: u16)
    requires
        a < 0x1000,
    ensures
        final(s)@ == old(s)@ + hex3(a),
{
    push_hex1_upper(s, (a / 256) as u8);
    push_hex1_upper(s, ((a / 16) % 16) as u8);
    push_hex1_upper(s, (a % 16) as u8);
    proof {
        assert(s@ =~= old(s)@ + hex3(a));
    }
}

/// `prefix` followed by a register number.
fn build_reg(prefix: &str, x: u8) -> (s: String)
    requires
        x < 16,
    ensures
        s@ == prefix@ + hex1(x),
{
    let mut s = String::from_str(prefix);
    push_hex1_upper(&mut s, x);
    s
}

/// `prefix` followed by a register number and an immediate byte.
fn build_reg_imm(prefix: &str, x: u8, kk: u8) -> (s: String)
    requires
        x < 16,
    ensures
        s@ == prefix@ + hex1(x) + ", 0x"@ + hex2(kk),
{
    let mut s = String::from_str(prefix);
    push_hex1_upper(&mut s, x);
    s.append(", 0x");
    push_hex2(&mut s, kk);
    proof {
        assert(s@ =~= prefix@ + hex1(x) + ", 0x"@ + hex2(kk));
    }
    s
}

/// `prefix` followed by two register numbers.
fn build_reg_reg(prefix: &str, x: u8, y: u8) -> (s: String)
    requires
        x < 16,
        y < 16,
    ensures
        s@ == prefix@ + hex1(x) + ", V"@ + hex1(y),
{
    let mut s = String::from_str(prefix);
    push_hex1_upper(&mut s, x);
    s.append(", V");
    push_hex1_upper(&mut s, y);
    proof {
        assert(s@ =~= prefix@ + hex1(x) + ", V"@ + hex1(y));
    }
    s
}

/// `prefix` followed by a 12-bit address.
fn build_addr(prefix: &str, addr: u16) -> (s: String)
    requires
        addr < 0x1000,
    ensures
        s@ == prefix@ + hex3(addr),
{
    let mut s = String::from_str(prefix);
    push_hex3(&mut s, addr);
    s
}

/// The assembly-style rendering of one instruction word, exactly as
/// `instruction_text` states it.
pub fn generate_instruction_string(instruction: u16) -> (s: String)
    ensures
        s@ == instruction_text(instruction),
{
    let d = decode(instruction);
    match d.family {
        0 => {
            if d.kk == 0xE0 {
                String::from_str("CLS")
            } else if d.kk == 0xEE {
                String::from_str("RET")
            } else {
                build_addr("SYS 0x", d.addr)
            }
        },
        1 => build_addr("JMP 0x", d.addr),
        2 => build_addr("CALL 0x", d.addr),
        3 => build_reg_imm("SE V", d.x, d.kk),
        4 => build_reg_imm("SNE V", d.x, d.kk),
        5 => build_reg_reg("SE V", d.x, d.y),
        6 => build_reg_imm("LD V", d.x, d.kk),
        7 => build_reg_imm("ADD V", d.x, d.kk),
        8 => {
            match d.n {
                0 => build_reg_reg("LD V", d.x, d.y),
                1 => build_reg_reg("OR V", d.x, d.y),
                2 => build_reg_reg("AND V", d.x, d.y),
                3 => build_reg_reg("XOR V", d.x, d.y),
                4 => build_reg_reg("ADD V", d.x, d.y),
                5 => build_reg_reg("SUB V", d.x, d.y),
                6 => build_reg("SHR V", d.x),
                7 => build_reg_reg("SUBN V", d.x, d.y),
                0xE => build_reg("SHL V", d.x),
                _ => String::from_str("??"),
            }
        },
        9 => build_reg_reg("SNE V", d.x, d.y),
        0xA => build_addr("LD I, 0x", d.addr),
        0xB => build_addr("JP V0, 0x", d.addr),
        0xC => build_reg_imm("RND V", d.x, d.kk),
        0xD => {
            let mut s = build_reg_reg("DRW V", d.x, d.y);
            s.append(", 0x");
            push_hex1_lower(&mut s, d.n);
            proof {
                assert(s@ =~= instruction_text(instruction));
            }
            s
        },
        0xE => {
            if d.kk == 0x9E {
                build_reg("SKP V", d.x)
            } else if d.kk == 0xA1 {
                build_reg("SKNP V", d.x)
            } else {
                String::from_str("??")
            }
        },
        _ => {
            if d.kk == 0x07 {
                let mut s = build_reg("LD V", d.x);
                s.append(", DT");
                proof {
                    assert(s@ =~= instruction_text(instruction));
                }
                s
            } else if d.kk == 0x0A {
                let mut s = build_reg("LD V", d.x);
                s.append(", K");
                proof {
                    assert(s@ =~= instruction_text(instruction));
                }
                s
            } else if d.kk == 0x15 {
                build_reg("LD DT, V", d.x)
            } else if d.kk == 0x18 {
                build_reg("LD ST, V", d.x)
            } else if d.kk == 0x1E {
                build_reg("ADD I, V", d.x)
            } else if d.kk == 0x29 {
                build_reg("LD F, V", d.x)
            } else if d.kk == 0x33 {
                build_reg("LD B, V", d.x)
            } else if d.kk == 0x55 {
                build_reg("LD [I], V", d.x)
            } else if d.kk == 0x65 {
                let mut s = build_reg("LD V", d.x);
                s.append(", [I]");
                proof {
                    assert(s@ =~= instruction_text(instruction));
                }
                s
            } else {
                String::from_str("??")
            }
        },
    }
}

/// A run of bytes rendered as space-separated lower-case hexadecimal
/// pairs, for the memory debug view.
pub fn get_hex_string(bytes: &[u8]) -> (s: String)
    ensures
        s@ == hex_text(bytes@),
{
    let mut s = String::new();
    let mut i: usize = 0;
    while i < bytes.len()
        invariant
            i <= bytes@.len(),
            s@ == hex_text(bytes@.take(i as int)),
        decreases bytes@.len() - i,
    {
        let b = bytes[i];
        push_hex1_lower(&mut s, b / 16);
        push_hex1_lower(&mut s, b % 16);
        s.append(" ");
        i += 1;
        proof {
            assert(bytes@.take(i as int).drop_last() =~= bytes@.take(i as int - 1));
            assert(s@ =~= hex_text(bytes@.take(i as int)));
        }
    }
    proof {
        assert(bytes@.take(bytes@.len() as int) =~= bytes@);
    }
    s
}

/// A run of bytes rendered as the text column of a memory dump: printable
/// ASCII characters stand for themselves, every other byte is a dot.
pub fn get_ascii_string(bytes: &[u8]) -> (s: String)
    ensures
        s@ == ascii_text(bytes@),
{
    let mut s = String::new();
    let mut i: usize = 0;
    while i < bytes.len()
        invariant
            i <= bytes@.len(),
            s@.len() == i,
            forall|k: int| 0 <= k < i ==> s@[k] == ascii_char(bytes@[k]),
        decreases bytes@.len() - i,
    {
        let b = bytes[i];
        let c: char = if 0x20 <= b && b <= 0x7E {
            b as char
        } else {
            '.'
        };
        s.push(c);
        i += 1;
    }
    proof {
        assert(s@ =~= ascii_text(bytes@));
    }
    s
}

/// Disassemble a run of big-endian instruction words: one `Instruction`
/// per word, addressed from `offset` upward in two-byte steps.
pub fn disassemble(instructions: &[u8], offset: u16) -> (r: Vec<Instruction>)
    requires
        instructions@.len() % 2 == 0,
        offset as int + instructions@.len() <= 0x10000,
    ensures
        r@.len() == instructions@.len() / 2,
        forall|k: int|
            0 <= k < r@.len() ==> {
                &&& (#[trigger] r@[k]).bytes == fetched(instructions@, 2 * k)
                &&& r@[k].address == offset + 2 * k
                &&& r@[k].opcode@ == instruction_text(r@[k].bytes)
            },
{
    let mut result: Vec<Instruction> = Vec::new();
    let mut i: usize = 0;
    while i < instructions.len()
        invariant
            instructions@.len() % 2 == 0,
            offset as int + instructions@.len() <= 0x10000,
            i % 2 == 0,
            i <= instructions@.len(),
            result@.len() == i / 2,
            forall|k: int|
                0 <= k < result@.len() ==> {
                    &&& (#[trigger] result@[k]).bytes == fetched(instructions@, 2 * k)
                    &&& result@[k].address == offset + 2 * k
                    &&& result@[k].opcode@ == instruction_text(result@[k].bytes)
                },
        decreases instructions@.len() - i,
    {
        let word = ((instructions[i] as u16) << 8) | (instructions[i + 1] as u16);
        result.push(
            Instruction {
                address: offset + (i as u16),
                bytes: word,
                opcode: generate_instruction_string(word),
            },
        );
        i += 2;
    }
    result
}

} // verus!
