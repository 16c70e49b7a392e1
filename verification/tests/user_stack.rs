use os_process::task::user_stack::{args_fit, push_args, UserWrite};

const W: usize = core::mem::size_of::<usize>();

fn strings(args: &[&str]) -> Vec<String> {
    args.iter().map(|a| String::from(*a)).collect()
}

/// The memory below `top` after the stores.
fn run(writes: &Vec<UserWrite>, top: usize) -> Vec<u8> {
    let mut mem = vec![0xaa_u8; top];
    for w in writes.iter() {
        match *w {
            UserWrite::Word { addr, word } => {
                for (k, b) in word.to_le_bytes().iter().enumerate() {
                    mem[addr + k] = *b;
                }
            }
            UserWrite::Byte { addr, byte } => mem[addr] = byte,
        }
    }
    mem
}

fn word_at(mem: &[u8], addr: usize) -> usize {
    let mut v: usize = 0;
    for k in (0..W).rev() {
        v = v * 256 + mem[addr + k] as usize;
    }
    v
}

#[test]
fn no_arguments_take_one_null_pointer() {
    let stack = push_args(&Vec::new(), 0x1000);
    assert_eq!(stack.argv_base, 0x1000 - W);
    assert_eq!(stack.user_sp, 0x1000 - W);
    assert_eq!(stack.writes, vec![UserWrite::Word { addr: 0x1000 - W, word: 0 }]);
}

#[test]
fn writes_come_pointer_first_then_bytes() {
    let stack = push_args(&strings(&["ab", "c"]), 0x1000);
    let base = 0x1000 - 3 * W;
    assert_eq!(stack.argv_base, base);
    assert_eq!(
        stack.writes,
        vec![
            UserWrite::Word { addr: base + 2 * W, word: 0 },
            UserWrite::Word { addr: base, word: base - 3 },
            UserWrite::Byte { addr: base - 3, byte: b'a' },
            UserWrite::Byte { addr: base - 2, byte: b'b' },
            UserWrite::Byte { addr: base - 1, byte: 0 },
            UserWrite::Word { addr: base + W, word: base - 5 },
            UserWrite::Byte { addr: base - 5, byte: b'c' },
            UserWrite::Byte { addr: base - 4, byte: 0 },
        ]
    );
    assert_eq!(stack.user_sp, base - 8);
}

#[test]
fn arguments_read_back() {
    let args = strings(&["echo", "", "h\u{e9}llo", "last one"]);
    let top = 0x800;
    let stack = push_args(&args, top);
    let mem = run(&stack.writes, top);
    for i in 0..args.len() {
        let mut p = word_at(&mem, stack.argv_base + i * W);
        let mut read: Vec<u8> = Vec::new();
        while mem[p] != 0 {
            read.push(mem[p]);
            p += 1;
        }
        assert_eq!(read, args[i].as_bytes().to_vec());
    }
    assert_eq!(word_at(&mem, stack.argv_base + args.len() * W), 0);
    assert_eq!(stack.user_sp % W, 0);
    // Nothing at or below the lowest argument was touched.
    let low = stack.argv_base - args.iter().map(|a| a.len() + 1).sum::<usize>();
    assert!(stack.user_sp <= low && low - stack.user_sp < W);
    assert!(mem[..low].iter().all(|b| *b == 0xaa));
}

#[test]
fn aligned_stack_is_left_alone() {
    let stack = push_args(&strings(&["1234567"]), 0x1000);
    assert_eq!(stack.argv_base, 0x1000 - 2 * W);
    assert_eq!(stack.user_sp, 0x1000 - 2 * W - 8);
}

#[test]
fn fit_is_exact() {
    let args = strings(&["ab", ""]);
    let need = 3 * W + 3 + 1;
    assert!(args_fit(&args, need));
    assert!(!args_fit(&args, need - 1));
    assert!(!args_fit(&args, 0));
    assert!(!args_fit(&args, 3 * W));
    assert!(args_fit(&Vec::new(), W));
    assert!(!args_fit(&Vec::new(), W - 1));
    let stack = push_args(&args, need);
    assert_eq!(stack.user_sp, 0);
}
