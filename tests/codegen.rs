use std::collections::HashMap;

use armcc::ast::{Block, BlockItem, Constant, Expr, Function, Program, Statement, VarDecl, VarSize};
use armcc::assembly::Assembly;
use armcc::codegen::{block_has_return, block_return_warning, unique_label, ARMCodegen};
use armcc::frame::{CodegenError, CodegenFunction, CodegenVar};
use armcc::parser::Parser;
use armcc::tokenizer::Tokenizer;

fn compile(src: &str) -> Result<String, CodegenError> {
    let tokens = Tokenizer::new(src).tokenize().unwrap();
    let program = Parser::new(tokens).parse().unwrap();
    ARMCodegen::new().generate(program)
}

fn reg(name: &str) -> usize {
    name.trim().trim_start_matches('w').parse().unwrap()
}

fn slot(operand: &str) -> i64 {
    let inner = operand.trim().trim_start_matches("[sp, #").trim_end_matches(']');
    inner.parse().unwrap()
}

/// Runs the emitted code on a small model of the instructions it uses and
/// returns the process exit code (the low byte of `w0` at `ret`).
fn run(text: &str) -> i32 {
    let lines: Vec<&str> = text.lines().map(|l| l.trim()).collect();
    let mut labels = HashMap::new();
    for (i, l) in lines.iter().enumerate() {
        if l.ends_with(':') {
            labels.insert(l.trim_end_matches(':').to_string(), i);
        }
    }
    let mut w = [0i32; 3];
    let mut mem: HashMap<i64, i32> = HashMap::new();
    let mut flags = (0i32, 0i32);
    let mut pc = labels["_main"];
    let mut steps = 0;
    loop {
        steps += 1;
        assert!(steps < 1_000_000, "the program does not stop");
        let line = lines[pc];
        pc += 1;
        if line.ends_with(':') || line.starts_with('.') {
            continue;
        }
        let (op, rest) = line.split_once(' ').unwrap_or((line, ""));
        let args: Vec<&str> = if rest.contains('[') {
            let (a, b) = rest.split_once(',').unwrap();
            vec![a, b]
        } else {
            rest.split(',').map(|a| a.trim()).collect()
        };
        match op {
            "ret" => return w[0] & 0xff,
            "sub" | "add" if args[0] == "sp" => {}
            "mov" => {
                w[reg(args[0])] = if args[1] == "wzr" {
                    0
                } else {
                    args[1].trim_start_matches('#').parse().unwrap()
                }
            }
            "ldr" => w[reg(args[0])] = *mem.get(&slot(args[1])).unwrap_or(&0),
            "str" => {
                mem.insert(slot(args[1]), w[reg(args[0])]);
            }
            "neg" => w[0] = w[0].wrapping_neg(),
            "mvn" => w[0] = !w[0],
            "cmp" => {
                let rhs = if args[1].starts_with('#') { 0 } else { w[reg(args[1])] };
                flags = (w[reg(args[0])], rhs);
            }
            "cset" => {
                let (a, b) = flags;
                let holds = match args[1] {
                    "eq" => a == b,
                    "ne" => a != b,
                    "lt" => a < b,
                    "le" => a <= b,
                    "gt" => a > b,
                    "ge" => a >= b,
                    other => panic!("condition {}", other),
                };
                w[0] = holds as i32;
            }
            "cbz" | "cbnz" => {
                if (w[0] == 0) == (op == "cbz") {
                    pc = labels[args[1]];
                }
            }
            "b" => pc = labels[args[0]],
            "beq" | "bne" => {
                if (flags.0 == flags.1) == (op == "beq") {
                    pc = labels[args[0]];
                }
            }
            "msub" => w[0] = w[reg(args[3])].wrapping_sub(w[2].wrapping_mul(w[0])),
            _ => {
                let (a, b) = (w[reg(args[1])], w[reg(args[2])]);
                w[reg(args[0])] = match op {
                    "add" => a.wrapping_add(b),
                    "sub" => a.wrapping_sub(b),
                    "mul" => a.wrapping_mul(b),
                    "sdiv" => a / b,
                    "and" => a & b,
                    "orr" => a | b,
                    "eor" => a ^ b,
                    "lsl" => a << b,
                    "lsr" => ((a as u32) >> b) as i32,
                    other => panic!("instruction {}", other),
                };
            }
        }
    }
}

fn exit_code(src: &str) -> i32 {
    run(&compile(src).unwrap())
}

#[test]
fn verify_cli() {
    let command = clap::Command::new("armcc")
        .about("A toy C compiler that outputs ARM64 assembly.")
        .arg(clap::Arg::new("file"))
        .arg(
            clap::Arg::new("dry_run")
                .short('d')
                .long("dry-run")
                .action(clap::ArgAction::SetTrue),
        )
        .arg(clap::Arg::new("ast").short('a').long("ast").action(clap::ArgAction::SetTrue))
        .arg(clap::Arg::new("no_asm").short('n').long("no-asm").action(clap::ArgAction::SetTrue));
    command.debug_assert();
}

#[test]
fn returns_a_sum() {
    assert_eq!(exit_code("int main() { return 2 + 3; }"), 5);
}

#[test]
fn short_circuit_operators() {
    assert_eq!(exit_code("int main() { return 1 && 0; }"), 0);
    assert_eq!(exit_code("int main() { return 1 || 0; }"), 1);
    assert_eq!(exit_code("int main() { return 7 && 3; }"), 1);
    assert_eq!(exit_code("int main() { int a = 0; 0 && (a = 5); 1 || (a = 6); return a; }"), 0);
}

#[test]
fn variables_and_arithmetic() {
    assert_eq!(exit_code("int main() { int a = 5; int b = 10; return a * b - 1; }"), 49);
}

#[test]
fn if_else() {
    assert_eq!(exit_code("int main() { int x = 3; if (x > 1) return 42; else return 7; }"), 42);
    assert_eq!(exit_code("int main() { int x = 0; if (x > 1) return 42; else return 7; }"), 7);
}

#[test]
fn while_loop_sums() {
    let src = "int main() { int i = 0; int s = 0; while (i < 5) { s = s + i; i = i + 1; } return s; }";
    assert_eq!(exit_code(src), 10);
}

#[test]
fn ternary_conditional() {
    assert_eq!(exit_code("int main() { return 2 == 2 ? 9 : 4; }"), 9);
    assert_eq!(exit_code("int main() { return 2 != 2 ? 9 : 4; }"), 4);
}

#[test]
fn closed_expressions_evaluate() {
    let cases = [
        ("1 + 2 * 3", 7),
        ("(1 + 2) * 3", 9),
        ("17 / 5", 3),
        ("17 % 5", 2),
        ("6 & 3", 2),
        ("6 | 3", 7),
        ("6 ^ 3", 5),
        ("1 << 4", 16),
        ("64 >> 2", 16),
        ("-(3) + 10", 7),
        ("~0 + 2", 1),
        ("!5", 0),
        ("!0", 1),
        ("3 <= 3", 1),
        ("3 < 3", 0),
        ("4 >= 5", 0),
        ("10 - 2 - 3", 5),
        ("1 ? 2 : 0 ? 3 : 4", 2),
        ("((2 + 3) * (4 + 5)) - ((1 + 1) * (2 + 2))", 37),
    ];
    for (e, want) in cases.iter() {
        assert_eq!(exit_code(&format!("int main() {{ return {}; }}", e)), *want, "{}", e);
    }
}

#[test]
fn loops_with_break_and_continue() {
    let src = "int main() { int s = 0; for (int i = 0; i < 10; i = i + 1) { if (i == 3) continue; if (i == 6) break; s = s + i; } return s; }";
    assert_eq!(exit_code(src), 12);
    let src = "int main() { int i = 0; do { i = i + 2; } while (i < 7); return i; }";
    assert_eq!(exit_code(src), 8);
    let src = "int main() { int i = 0; for (;;) { i = i + 1; if (i > 4) break; } return i; }";
    assert_eq!(exit_code(src), 5);
}

#[test]
fn if_without_else_keeps_the_zero_fallback() {
    let text = compile("int main() { int a = 0; if (a) return 3; }").unwrap();
    assert!(text.lines().any(|l| l == "mov w0, #0"));
    assert_eq!(run(&text), 0);
}

#[test]
fn main_without_return_exits_zero() {
    let text = compile("int main() { int a = 3; }").unwrap();
    assert!(text.lines().any(|l| l == "mov w0, #0"));
    assert_eq!(run(&text), 0);
}

#[test]
fn output_starts_with_the_header_and_prologue() {
    let text = compile("int main() { return 2; }").unwrap();
    let lines: Vec<&str> = text.lines().collect();
    assert_eq!(
        lines,
        vec![
            ".section __TEXT,__text,regular,pure_instructions",
            ".build_version macos, 13, 0 sdk_version 13, 3",
            ".globl _main",
            ".p2align 2",
            "_main:",
            "sub sp, sp, #0",
            "mov w0, #2",
            "add sp, sp, #0",
            "ret",
        ]
    );
}

#[test]
fn binary_operator_uses_its_slot() {
    let text = compile("int main() { return 2 + 3; }").unwrap();
    let lines: Vec<&str> = text.lines().collect();
    assert_eq!(
        &lines[5..12],
        &[
            "sub sp, sp, #16",
            "mov w0, #2",
            "str w0, [sp, #12]",
            "mov w0, #3",
            "ldr w1, [sp, #12]",
            "add w0, w1, w0",
            "add sp, sp, #16",
        ]
    );
}

#[test]
fn frame_sizes_are_multiples_of_sixteen() {
    for n in 0..9 {
        let decls: String = (0..n).map(|i| format!("int v{} = {};", i, i)).collect();
        let text = compile(&format!("int main() {{ {} return 1 + 2 * 3; }}", decls)).unwrap();
        let sub = text.lines().find(|l| l.starts_with("sub sp, sp, #")).unwrap();
        let size: usize = sub.trim_start_matches("sub sp, sp, #").parse().unwrap();
        assert_eq!(size % 16, 0);
        assert!(size >= 4 * (n + 2));
    }
}

#[test]
fn each_label_is_defined_once() {
    let src = "int main() { int s = 0; for (int i = 0; i < 3; i = i + 1) { while (s > 100) { s = s - 1; } do { s = s + (i ? 1 : 2); } while (s < 0); if (s && i || 0) s = s + 1; } return s; }";
    let text = compile(src).unwrap();
    let defs: Vec<&str> = text.lines().filter(|l| l.starts_with('L') && l.ends_with(':')).collect();
    let mut unique = defs.clone();
    unique.sort();
    unique.dedup();
    assert_eq!(defs.len(), unique.len());
    assert!(defs.len() >= 10);
}

#[test]
fn undeclared_variable_is_not_found() {
    assert!(matches!(compile("int main() { return x; }"), Err(CodegenError::VarNotFound(_))));
    assert!(matches!(compile("int main() { y = 1; return 0; }"), Err(CodegenError::VarNotFound(_))));
}

#[test]
fn redeclaration_is_rejected() {
    assert!(matches!(
        compile("int main() { int a = 1; { int a = 2; } return a; }"),
        Err(CodegenError::VarAlreadyDeclared(_))
    ));
}

#[test]
fn break_and_continue_need_a_loop() {
    assert!(matches!(compile("int main() { break; }"), Err(CodegenError::NoLoopFoundForBreak)));
    assert!(matches!(
        compile("int main() { continue; }"),
        Err(CodegenError::NoLoopFoundForContinue)
    ));
}

#[test]
fn decimals_are_not_compiled() {
    let program = Parser::new(Tokenizer::new("int main() { return 1.5; }").tokenize().unwrap()).parse();
    // A decimal is not an atom of the grammar.
    assert!(program.is_err());
}

#[test]
fn frame_layout_inverts_offsets() {
    let block = Block {
        items: vec![
            BlockItem::Declaration(VarDecl { name: "a".into(), size: VarSize::Word, initializer: None }),
            BlockItem::Declaration(VarDecl {
                name: "b".into(),
                size: VarSize::Byte,
                initializer: None,
            }),
            BlockItem::Statement(Statement::Expression(Box::new(Expr::Var("a".into())))),
        ],
    };
    let f = CodegenFunction::new(&block).unwrap();
    assert_eq!(f.stack.size, 16);
    assert_eq!(f.stack.op_count, 0);
    assert_eq!(f.stack.var_map[0].0, "a");
    assert_eq!(f.stack.var_map[0].1.get_stack_offset().unwrap(), 12);
    assert_eq!(f.stack.var_map[1].1.get_stack_offset().unwrap(), 11);
    assert!(matches!(f.stack.var_map[1].1, CodegenVar::StackVar(_)));
}

#[test]
fn return_analysis() {
    let parse = |src: &str| Parser::new(Tokenizer::new(src).tokenize().unwrap()).parse().unwrap();
    let program = parse("int main() { if (1) return 1; else { return 2; } }");
    assert!(block_has_return(&program.function.body.items));
    assert!(!block_return_warning(&program.function.body.items));
    // Without an `else` some path does not return.
    let program = parse("int main() { if (1) return 1; }");
    assert!(!block_has_return(&program.function.body.items));
    assert!(block_return_warning(&program.function.body.items));
    let program = parse("int main() { int a = 1; a = 2; }");
    assert!(!block_has_return(&program.function.body.items));
    assert!(!block_return_warning(&program.function.body.items));
    let program = parse("int main() { int a = 0; if (a) return 1; else a = 2; }");
    assert!(!block_has_return(&program.function.body.items));
    assert!(block_return_warning(&program.function.body.items));
    let program = parse("int main() { int a = 0; if (a) return 1; else a = 2; return 3; }");
    assert!(block_has_return(&program.function.body.items));
    assert!(!block_return_warning(&program.function.body.items));
}

#[test]
fn labels_are_numbered() {
    assert_eq!(unique_label(0), "L0");
    assert_eq!(unique_label(1234), "L1234");
}

#[test]
fn assembly_joins_lines() {
    let mut a = Assembly::new();
    assert_eq!(a.to_string(), "");
    a.push("one".to_string());
    a.push("two".to_string());
    assert_eq!(a.to_string(), "one\ntwo");
}

#[test]
fn negative_constants_are_spelled_with_a_sign() {
    let program = Program {
        function: Function {
            name: "main".into(),
            body: Block {
                items: vec![BlockItem::Statement(Statement::Return(Box::new(Expr::Constant(
                    Constant::Int(-7),
                ))))],
            },
        },
    };
    let text = ARMCodegen::new().generate(program).unwrap();
    assert!(text.lines().any(|l| l == "mov w0, #-7"));
}
