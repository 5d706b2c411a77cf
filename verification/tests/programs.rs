use regvm::lexer::lexer::Lexer;
use regvm::types::arith::ArithOp;
use regvm::types::Type;
use regvm::vm::builtin::{Concat, DateNow, DateNowUnix};
use regvm::vm::field::Field;
use regvm::vm::semantics::Number;
use regvm::vm::vm::{Status, Vm};

const BUILTINS: [&str; 9] = [
    "__println",
    "__print",
    "__concat",
    "__date_now_unix",
    "__date_now",
    "__dbg_print",
    "__dbg_heap",
    "__random",
    "__floor",
];

fn as_float(n: Number) -> f64 {
    match n {
        Number::Int(i) => i as f64,
        Number::UInt(u) => u as f64,
        Number::Float(bits) => f64::from_bits(bits),
    }
}

fn call_builtin(vm: &mut Vm, index: usize) -> Field {
    match BUILTINS[index] {
        "__println" => {
            println!("{}", vm.registers.rd.to_text(&vm.heap));
            Field::default()
        }
        "__print" => {
            println!("{}", vm.registers.rd.to_text(&vm.heap));
            Field::default()
        }
        "__concat" => Concat::joined(&vm.registers, &vm.heap),
        "__date_now_unix" => DateNowUnix::now(),
        "__date_now" => DateNow::now(),
        "__random" => Field(Type::Float(0.5f64.to_bits())),
        "__floor" => match &vm.registers.r0.0 {
            Type::Float(bits) => Field(Type::Float(f64::from_bits(*bits).floor().to_bits())),
            _ => vm.registers.r0.underlying_data_clone(),
        },
        _ => Field::default(),
    }
}

fn run(code: String) -> Vm {
    let lexer = Lexer::new();
    let program = lexer.process(code).unwrap();
    let mut vm = Vm::new(true);
    for name in BUILTINS {
        vm.register(name);
    }
    vm.load(program);
    loop {
        match vm.run(u64::MAX) {
            Ok(Status::Halted) => break,
            Ok(Status::Running) => continue,
            Ok(Status::AwaitingInput) => {
                vm.finish_input(String::new());
            }
            Ok(Status::AwaitingFloat(request)) => {
                let a = as_float(request.lhs);
                let b = as_float(request.rhs);
                let value = match request.op {
                    ArithOp::Add => a + b,
                    ArithOp::Sub => a - b,
                    ArithOp::Mul => a * b,
                    _ => a / b,
                };
                vm.finish_float(request.dest, value.to_bits());
            }
            Ok(Status::AwaitingBuiltin(index)) => {
                let result = call_builtin(&mut vm, index);
                vm.finish_call(result);
            }
            Err(e) => {
                println!("Error: {}", e.message);
                println!("===== Stack Trace =====");
                for item in e.stacktrace {
                    println!("{}", item);
                }
                println!("===== App Stack =====");
                for item in e.app_stack {
                    println!("{}", item);
                }
                break;
            }
        }
    }
    vm
}

#[test]
fn counter_10000() {
    run(r#"
    section .code
        _main:
            call __dbg_print
            call __date_now_unix
            push r0
            mov ra,0
            mov rb,_loop_times
        _loop:
            call _print_name
            add ra,1
            test ra,rb
            jle _loop
            jmp _exit
        _print_name:
            mov rd,ra
            call __println
            ret
        _exit:
            call __date_now_unix
            pop r1
            sub r0,r1
            mov r1,r0
            mov rd,_took
            call __print
            mov rd,r1
            call __print
            test r1,1
            je _sec
        _secs:
            mov rd,_secs
            jmp _end
        _sec:
            mov rd,_sec
        _end:
            call __println
    section .data
        _space: " "
        _took: "Took "
        _secs: " seconds"
        _sec: " second"
        _loop_times: 10000
    "#
    .to_string());
}

#[test]
fn alloc_then_free() {
    run(r#"
    section .code
        _main:
            alloc r0, 10
            mov r1, r0
            free r0
            call __dbg_print
    section .data

    "#
    .to_string());
}

#[test]
fn can_assign_to_pointer() {
    let vm = run(r#"
        alloc ra, 10
        mov ra[0], 'y'
        mov ra[1], 'e'
        mov ra[2], 'y'
        ;free ra
        mov rd, ra
        call __println
    "#
    .to_string());

    let mut vm = vm;
    assert_eq!("yey", vm.registers.ra.to_text(&vm.heap));
    // let's free the pointer?
    let allocation = vm.registers.ra.to_p(&vm).unwrap();
    vm.heap.deallocate(allocation.ptr, allocation.size).unwrap();
}

#[test]
fn can_move_from_pointer_to_pointer() {
    let vm = run(r#"
        alloc ra, 4
        mov ra[0], 'd'
        mov ra[1], 'a'
        mov ra[2], 'y'
        alloc rb, 4
        mov rb[0], ra[0]
        mov rb[1], ra[1]
        mov rb[2], ra[2]
        mov rd, rb
        call __println
    "#
    .to_string());

    let mut vm = vm;
    assert_eq!("day", vm.registers.rb.to_text(&vm.heap));
    // let's free the pointer?
    let allocation = vm.registers.rb.to_p(&vm).unwrap();
    vm.heap.deallocate(allocation.ptr, allocation.size).unwrap();
}

#[test]
fn can_mov_string_offset_within_loop() {
    run(r#"
    section .code
        _main:
            mov ra, _len
            mov rb, _start
            mov rc, 0
            alloc rd, 26
        _loop:
            mov rd[rc], rb
            add rc, 1
            add rb, 1
            test rc, ra
            jl _loop
        _end:
            call __println
            free rd

    section .data
        _start: 97
        _len: 26
    "#
    .to_string());
}

#[test]
fn can_generate_random_string() {
    run(r#"
    section .code
        _main:
            call _generate_password
            add r9, 1                   ; add 1 to r9 (amount of times password generated)
            test r9, 5                  ; compare r9 to 5, set flags
            jl _main                    ; if r9 < 5, jump back to _main
            jmp _stop                   ; unconditionally jmp to _stop
        _clamp_numbers:
            call __random               ; generate a random between 0 and 1
            mov r1, 62                  ; maximum number = 62
            mul r0, r1                  ; multiply random number by 62
            call __floor                 ; round down to nearest integer
            ret
        _generate_password:
            alloc ra, _len              ; allocate _len bytes to ra
            mov rb, _chars              ; copy _chars to rb
            mov rc, 0                   ; copy 0 to rc
            mov r5, _len                ; copy _len to r5
        _loop:
            call _clamp_numbers         ; r0 = return of _clamp_numbers
            mov ra[rc], rb[r0]          ; copy rb[r0] offset (rb is a pointer to _chars
            add rc, 1                   ; add 1 to rc
            test rc, r5                 ; compare rc to r5, set flags
            jl _loop                    ; if rc < r5, jump back to _loop
            mov rd, ra                  ; copy ra to rd
            call __println              ; print rd
            free ra                     ; free memory allocation at ra
            ret
        _stop:                          ; end of program
    section .data
        _chars: "abcdefghijklmnopqrstuvwxyzABCDEFGHIJKLMNOPQRSTUVWXYZ0123456789"
        _len: 10
    "#
    .to_string());
}
