//! The user stack of a program that starts with arguments.
//!
//! From the top of the stack down: the array of argument pointers, closed by a null pointer;
//! the arguments, the first one highest, each closed by a zero byte; and what it takes to align
//! the stack pointer to a word.
use vstd::prelude::*;
use vstd::arithmetic::power::pow;
use vstd::layout::size_of;
use vstd::utf8::encode_utf8;
use crate::bytes::{law_word_bytes_are_digits, lemma_word_size, word_bytes, word_size};

verus! {

/// A store to user memory.
#[derive(Clone, Copy, Debug, PartialEq, Eq, Structural)]
pub enum UserWrite {
    /// A machine word.
    Word { addr: usize, word: usize },
    /// A single byte.
    Byte { addr: usize, byte: u8 },
}

/// The arguments as they are pushed on a user stack.
#[derive(Debug)]
pub struct ArgStack {
    /// What is stored, in this order.
    pub writes: Vec<UserWrite>,
    /// Where the array of argument pointers starts.
    pub argv_base: usize,
    /// The stack pointer below the arguments.
    pub user_sp: usize,
}

/// The bytes of each argument.
pub open spec fn arg_bytes(args: Seq<String>) -> Seq<Seq<u8>> {
    Seq::new(args.len(), |i: int| encode_utf8(args[i]@))
}

/// What the first `n` arguments take with their closing zero bytes.
pub open spec fn strings_size(a: Seq<Seq<u8>>, n: nat) -> nat
    decreases n,
{
    if n == 0 {
        0
    } else {
        strings_size(a, (n - 1) as nat) + a[n - 1].len() + 1
    }
}

/// What the array of argument pointers takes with its closing null pointer.
pub open spec fn argv_size(a: Seq<Seq<u8>>) -> nat {
    (a.len() + 1) * word_size()
}

/// What the arguments take on the stack before the stack pointer is aligned.
pub open spec fn stack_need(a: Seq<Seq<u8>>) -> nat {
    argv_size(a) + strings_size(a, a.len())
}

/// Where the array of argument pointers starts on a stack with top `top`.
pub open spec fn argv_start(a: Seq<Seq<u8>>, top: int) -> int {
    top - argv_size(a)
}

/// Where the pointer to argument `i` stands; the closing null pointer counts as the last one.
pub open spec fn argv_slot(a: Seq<Seq<u8>>, top: int, i: int) -> int {
    argv_start(a, top) + i * word_size()
}

/// Where argument `i` starts.
pub open spec fn arg_addr(a: Seq<Seq<u8>>, top: int, i: int) -> int {
    argv_start(a, top) - strings_size(a, (i + 1) as nat)
}

/// The lowest address that the arguments take.
pub open spec fn stack_low(a: Seq<Seq<u8>>, top: int) -> int {
    top - stack_need(a)
}

/// The stack pointer: the highest word boundary that leaves the arguments above it.
pub open spec fn stack_pointer(a: Seq<Seq<u8>>, top: int) -> int {
    stack_low(a, top) - stack_low(a, top) % (word_size() as int)
}

/// The stores that put `b` with a closing zero byte at `addr`.
pub open spec fn string_writes(addr: int, b: Seq<u8>) -> Seq<UserWrite> {
    Seq::new(
        b.len() + 1,
        |k: int|
            UserWrite::Byte {
                addr: (addr + k) as usize,
                byte: if k < b.len() {
                    b[k]
                } else {
                    0
                },
            },
    )
}

/// The stores for argument `i`: its pointer, then its bytes.
pub open spec fn arg_writes(a: Seq<Seq<u8>>, top: int, i: int) -> Seq<UserWrite> {
    seq![
        UserWrite::Word {
            addr: argv_slot(a, top, i) as usize,
            word: arg_addr(a, top, i) as usize,
        },
    ] + string_writes(arg_addr(a, top, i), a[i])
}

/// The stores for the closing null pointer and the first `n` arguments.
pub open spec fn writes_upto(a: Seq<Seq<u8>>, top: int, n: nat) -> Seq<UserWrite>
    decreases n,
{
    if n == 0 {
        seq![UserWrite::Word { addr: argv_slot(a, top, a.len() as int) as usize, word: 0 }]
    } else {
        writes_upto(a, top, (n - 1) as nat) + arg_writes(a, top, n - 1)
    }
}

/// All the stores that push the arguments.
pub open spec fn user_writes(a: Seq<Seq<u8>>, top: int) -> Seq<UserWrite> {
    writes_upto(a, top, a.len())
}

proof fn lemma_strings_size_monotone(a: Seq<Seq<u8>>, i: nat, j: nat)
    requires
        i <= j,
    ensures
        strings_size(a, i) + (j - i) <= strings_size(a, j),
    decreases j,
{
    if i < j {
        lemma_strings_size_monotone(a, i, (j - 1) as nat);
    }
}

/// Whether the arguments fit on a stack with top `ustack_top`.
pub fn args_fit(args: &Vec<String>, ustack_top: usize) -> (fit: bool)
    ensures
        fit == (stack_need(arg_bytes(args@)) <= ustack_top),
{
    let ghost a = arg_bytes(args@);
    let word: usize = core::mem::size_of::<usize>();
    proof {
        lemma_word_size();
    }
    let n: usize = args.len();
    if n >= ustack_top / word {
        assert((n + 1) * word > ustack_top) by (nonlinear_arith)
            requires
                n >= ustack_top / word,
                word > 0,
        ;
        return false;
    }
    assert(0 <= (n + 1) * word <= ustack_top) by (nonlinear_arith)
        requires
            n < ustack_top / word,
            word > 0,
    ;
    let mut left: usize = ustack_top - (n + 1) * word;
    let mut i: usize = 0;
    while i < n
        invariant
            n == args.len(),
            a == arg_bytes(args@),
            i <= n,
            argv_size(a) <= ustack_top,
            left == ustack_top - argv_size(a) - strings_size(a, i as nat),
        decreases n - i,
    {
        let bytes = args[i].as_str().as_bytes();
        assert(bytes@ == a[i as int]);
        if bytes.len() >= left {
            proof {
                lemma_strings_size_monotone(a, (i + 1) as nat, n as nat);
            }
            return false;
        }
        left = left - (bytes.len() + 1);
        i += 1;
    }
    true
}

/// Lays the arguments out on a stack with top `ustack_top`.
pub fn push_args(args: &Vec<String>, ustack_top: usize) -> (stack: ArgStack)
    requires
        stack_need(arg_bytes(args@)) <= ustack_top,
    ensures
        stack.argv_base == argv_start(arg_bytes(args@), ustack_top as int),
        stack.user_sp == stack_pointer(arg_bytes(args@), ustack_top as int),
        stack.writes@ == user_writes(arg_bytes(args@), ustack_top as int),
{
    let ghost a = arg_bytes(args@);
    let ghost top = ustack_top as int;
    let word: usize = core::mem::size_of::<usize>();
    proof {
        lemma_word_size();
    }
    let n: usize = args.len();
    assert(n + 1 <= (n + 1) * word && n * word <= (n + 1) * word && 0 <= n * word)
        by (nonlinear_arith)
        requires
            word > 0,
    ;
    let mut sp: usize = ustack_top - (n + 1) * word;
    let argv_base: usize = sp;
    let mut writes: Vec<UserWrite> = Vec::new();
    assert(argv_base + n * word <= ustack_top) by (nonlinear_arith)
        requires
            argv_base == ustack_top - (n + 1) * word,
            word > 0,
    ;
    writes.push(UserWrite::Word { addr: argv_base + n * word, word: 0 });
    assert(writes@ =~= writes_upto(a, top, 0));
    let mut i: usize = 0;
    while i < n
        invariant
            n == args.len(),
            a == arg_bytes(args@),
            top == ustack_top,
            word == word_size(),
            word == 4 || word == 8,
            i <= n,
            stack_need(a) <= ustack_top,
            argv_base == argv_start(a, top),
            n * word <= argv_size(a),
            sp == argv_base - strings_size(a, i as nat),
            writes@ == writes_upto(a, top, i as nat),
        decreases n - i,
    {
        let bytes = args[i].as_str().as_bytes();
        assert(bytes@ == a[i as int]);
        proof {
            lemma_strings_size_monotone(a, (i + 1) as nat, n as nat);
        }
        sp = sp - (bytes.len() + 1);
        assert(0 <= i * word <= n * word) by (nonlinear_arith)
            requires
                i <= n,
                word > 0,
        ;
        writes.push(UserWrite::Word { addr: argv_base + i * word, word: sp });
        let ghost head = writes@;
        let mut k: usize = 0;
        while k < bytes.len()
            invariant
                bytes@ == a[i as int],
                k <= bytes.len(),
                sp == arg_addr(a, top, i as int),
                sp + bytes.len() + 1 <= ustack_top,
                writes@ == head + string_writes(sp as int, bytes@).take(k as int),
            decreases bytes.len() - k,
        {
            writes.push(UserWrite::Byte { addr: sp + k, byte: bytes[k] });
            k += 1;
            assert(writes@ =~= head + string_writes(sp as int, bytes@).take(k as int));
        }
        writes.push(UserWrite::Byte { addr: sp + k, byte: 0 });
        assert(writes@ =~= head + string_writes(sp as int, bytes@));
        assert(writes@ =~= writes_upto(a, top, i as nat) + arg_writes(a, top, i as int));
        i += 1;
    }
    ArgStack { writes, argv_base, user_sp: sp - sp % word }
}

/// User memory: the byte at each address.
pub type Memory = spec_fn(int) -> u8;

/// Memory after one store.
pub open spec fn store(mem: Memory, w: UserWrite) -> Memory {
    match w {
        UserWrite::Word { addr, word } => |x: int|
            if addr <= x < addr + word_size() {
                word_bytes(word)[x - addr]
            } else {
                mem(x)
            },
        UserWrite::Byte { addr, byte } => |x: int|
            if x == addr {
                byte
            } else {
                mem(x)
            },
    }
}

/// Memory after the stores `ws`, first one first.
pub open spec fn store_all(mem: Memory, ws: Seq<UserWrite>) -> Memory
    decreases ws.len(),
{
    if ws.len() == 0 {
        mem
    } else {
        store(store_all(mem, ws.drop_last()), ws.last())
    }
}

/// Memory holds `b` and a closing zero byte at `addr`.
pub open spec fn holds_string(mem: Memory, addr: int, b: Seq<u8>) -> bool {
    &&& forall|k: int| 0 <= k < b.len() ==> #[trigger] mem(addr + k) == b[k]
    &&& mem(addr + b.len()) == 0
}

/// Memory holds word `v` at `addr`.
pub open spec fn holds_word(mem: Memory, addr: int, v: usize) -> bool {
    forall|k: int| 0 <= k < word_size() ==> #[trigger] mem(addr + k) == word_bytes(v)[k]
}

proof fn lemma_store_all_concat(mem: Memory, a: Seq<UserWrite>, b: Seq<UserWrite>)
    ensures
        store_all(mem, a + b) == store_all(store_all(mem, a), b),
    decreases b.len(),
{
    if b.len() == 0 {
        assert(a + b =~= a);
    } else {
        assert((a + b).drop_last() =~= a + b.drop_last());
        lemma_store_all_concat(mem, a, b.drop_last());
    }
}

proof fn lemma_store_string_prefix(mem: Memory, addr: int, b: Seq<u8>, n: nat, x: int)
    requires
        0 <= addr,
        addr + b.len() <= usize::MAX,
        n <= b.len() + 1,
    ensures
        store_all(mem, string_writes(addr, b).take(n as int))(x) == if addr <= x < addr + n {
            if x - addr < b.len() {
                b[x - addr]
            } else {
                0
            }
        } else {
            mem(x)
        },
    decreases n,
{
    let ws = string_writes(addr, b).take(n as int);
    if n > 0 {
        assert(ws.drop_last() =~= string_writes(addr, b).take(n - 1));
        lemma_store_string_prefix(mem, addr, b, (n - 1) as nat, x);
    }
}

proof fn lemma_store_arg(mem: Memory, a: Seq<Seq<u8>>, top: int, i: int, x: int)
    requires
        stack_need(a) <= top <= usize::MAX,
        0 <= i < a.len(),
    ensures
        ({
            let low = arg_addr(a, top, i);
            let slot = argv_slot(a, top, i);
            store_all(mem, arg_writes(a, top, i))(x) == if low <= x <= low + a[i].len() {
                if x - low < a[i].len() {
                    a[i][x - low]
                } else {
                    0
                }
            } else if slot <= x < slot + word_size() {
                word_bytes(low as usize)[x - slot]
            } else {
                mem(x)
            }
        }),
{
    let low = arg_addr(a, top, i);
    let slot = argv_slot(a, top, i);
    let w = UserWrite::Word { addr: slot as usize, word: low as usize };
    let ws = string_writes(low, a[i]);
    lemma_word_size();
    lemma_strings_size_monotone(a, (i + 1) as nat, a.len());
    lemma_slot_range(a, top, i);
    lemma_store_all_concat(mem, seq![w], ws);
    assert(seq![w].drop_last() =~= Seq::empty());
    assert(store_all(mem, seq![w]) == store(store_all(mem, Seq::empty()), w));
    let m = store_all(mem, seq![w]);
    assert(ws.take(ws.len() as int) =~= ws);
    lemma_store_string_prefix(m, low, a[i], a[i].len() + 1, x);
}

proof fn lemma_slot_range(a: Seq<Seq<u8>>, top: int, i: int)
    requires
        0 <= i <= a.len(),
    ensures
        argv_start(a, top) <= argv_slot(a, top, i),
        argv_slot(a, top, i) + word_size() <= top,
{
    let n = a.len() as int;
    let w = word_size() as int;
    assert(0 <= i * w && i * w + w <= (n + 1) * w) by (nonlinear_arith)
        requires
            0 <= i <= n,
            0 <= w,
    ;
}

proof fn lemma_slots_apart(a: Seq<Seq<u8>>, top: int, i: int, j: int)
    requires
        0 <= i < j,
    ensures
        argv_slot(a, top, i) + word_size() <= argv_slot(a, top, j),
{
    let w = word_size() as int;
    assert(i * w + w <= j * w) by (nonlinear_arith)
        requires
            0 <= i < j,
            0 <= w,
    ;
}

/// Argument `i` lies between the end of argument `i - 1` (or of the pointers) and the
/// lowest address taken.
proof fn lemma_args_apart(a: Seq<Seq<u8>>, top: int, i: int, j: int)
    requires
        0 <= i < j < a.len(),
    ensures
        arg_addr(a, top, j) + a[j].len() + 1 <= arg_addr(a, top, i),
{
    lemma_strings_size_monotone(a, (i + 1) as nat, j as nat);
}

proof fn lemma_stored_upto(mem: Memory, a: Seq<Seq<u8>>, top: int, n: nat)
    requires
        stack_need(a) <= top <= usize::MAX,
        n <= a.len(),
    ensures
        ({
            let m = store_all(mem, writes_upto(a, top, n));
            &&& forall|i: int| 0 <= i < n ==> holds_string(m, #[trigger] arg_addr(a, top, i), a[i])
            &&& forall|i: int|
                0 <= i < n ==> holds_word(
                    m,
                    #[trigger] argv_slot(a, top, i),
                    arg_addr(a, top, i) as usize,
                )
            &&& holds_word(m, argv_slot(a, top, a.len() as int), 0)
            &&& forall|x: int|
                x < argv_start(a, top) - strings_size(a, n) || top <= x ==> #[trigger] m(x) == mem(
                    x,
                )
        }),
    decreases n,
{
    lemma_word_size();
    let last = a.len() as int;
    lemma_slot_range(a, top, last);
    if n == 0 {
        let w = UserWrite::Word { addr: argv_slot(a, top, last) as usize, word: 0 };
        assert(seq![w].drop_last() =~= Seq::empty());
        assert(store_all(mem, seq![w]) == store(store_all(mem, Seq::empty()), w));
    } else {
        let p = (n - 1) as nat;
        let b = p as int;
        lemma_stored_upto(mem, a, top, p);
        let before = store_all(mem, writes_upto(a, top, p));
        let m = store_all(mem, writes_upto(a, top, n));
        lemma_store_all_concat(mem, writes_upto(a, top, p), arg_writes(a, top, b));
        lemma_slot_range(a, top, b);
        lemma_slots_apart(a, top, b, last);
        lemma_strings_size_monotone(a, n, a.len());
        assert forall|x: int| #![trigger m(x)] true implies m(x) == store_all(
            before,
            arg_writes(a, top, b),
        )(x) by {}
        assert forall|i: int| 0 <= i < n implies holds_string(
            m,
            #[trigger] arg_addr(a, top, i),
            a[i],
        ) by {
            let low = arg_addr(a, top, i);
            if i < b {
                lemma_args_apart(a, top, i, b);
                assert(holds_string(before, low, a[i]));
            }
            lemma_strings_size_monotone(a, 0, i as nat);
            assert forall|k: int| 0 <= k <= a[i].len() implies #[trigger] m(low + k) == if k
                < a[i].len() {
                a[i][k]
            } else {
                0
            } by {
                lemma_store_arg(before, a, top, b, low + k);
                if i < b {
                    assert(low + k < argv_start(a, top));
                    assert(before(low + k) == if k < a[i].len() {
                        a[i][k]
                    } else {
                        0
                    });
                }
            }
            assert(m(low + a[i].len()) == 0);
        }
        assert forall|i: int| 0 <= i < n implies holds_word(
            m,
            #[trigger] argv_slot(a, top, i),
            arg_addr(a, top, i) as usize,
        ) by {
            let slot = argv_slot(a, top, i);
            lemma_slot_range(a, top, i);
            if i < b {
                lemma_slots_apart(a, top, i, b);
                assert(holds_word(before, slot, arg_addr(a, top, i) as usize));
            }
            assert forall|k: int| 0 <= k < word_size() implies #[trigger] m(slot + k)
                == word_bytes(arg_addr(a, top, i) as usize)[k] by {
                lemma_store_arg(before, a, top, b, slot + k);
                if i < b {
                    assert(before(slot + k) == word_bytes(arg_addr(a, top, i) as usize)[k]);
                }
            }
        }
        let slot = argv_slot(a, top, last);
        assert forall|k: int| 0 <= k < word_size() implies #[trigger] m(slot + k) == word_bytes(
            0,
        )[k] by {
            lemma_store_arg(before, a, top, b, slot + k);
            assert(before(slot + k) == word_bytes(0)[k]);
        }
        assert forall|x: int|
            x < argv_start(a, top) - strings_size(a, n) || top <= x implies #[trigger] m(x) == mem(
            x,
        ) by {
            lemma_store_arg(before, a, top, b, x);
            assert(before(x) == mem(x));
        }
    }
}

/// A program that is started with arguments reads them back: argument pointer `i` points to
/// the bytes of argument `i`, closed by a zero byte; a null pointer closes the pointers; and
/// nothing outside the place that the arguments take is touched.
pub proof fn law_args_read_back(mem: Memory, a: Seq<Seq<u8>>, top: int)
    requires
        stack_need(a) <= top <= usize::MAX,
    ensures
        ({
            let m = store_all(mem, user_writes(a, top));
            &&& forall|i: int|
                0 <= i < a.len() ==> holds_word(
                    m,
                    #[trigger] argv_slot(a, top, i),
                    arg_addr(a, top, i) as usize,
                )
            &&& forall|i: int|
                0 <= i < a.len() ==> holds_string(m, #[trigger] arg_addr(a, top, i), a[i])
            &&& holds_word(m, argv_slot(a, top, a.len() as int), 0)
            &&& forall|x: int|
                x < stack_low(a, top) || top <= x ==> #[trigger] m(x) == mem(x)
        }),
{
    lemma_stored_upto(mem, a, top, a.len());
}

/// The stack pointer is aligned to a word and leaves every argument above it, less than a
/// word away.
pub proof fn law_stack_pointer_aligned(a: Seq<Seq<u8>>, top: int)
    requires
        stack_need(a) <= top,
    ensures
        stack_pointer(a, top) % (word_size() as int) == 0,
        0 <= stack_pointer(a, top) <= stack_low(a, top),
        stack_low(a, top) - stack_pointer(a, top) < word_size(),
        forall|i: int|
            0 <= i < a.len() ==> stack_low(a, top) <= #[trigger] arg_addr(a, top, i),
        forall|i: int|
            0 <= i < a.len() ==> (#[trigger] arg_addr(a, top, i)) + a[i].len() < argv_start(a, top),
{
    let w = word_size() as int;
    let low = stack_low(a, top);
    lemma_word_size();
    assert((low - low % w) % w == 0 && 0 <= low % w < w && low % w <= low) by (nonlinear_arith)
        requires
            w == 4 || w == 8,
            0 <= low,
    ;
    assert forall|i: int| 0 <= i < a.len() implies low <= #[trigger] arg_addr(a, top, i)
        && arg_addr(a, top, i) + a[i].len() < argv_start(a, top) by {
        lemma_strings_size_monotone(a, (i + 1) as nat, a.len());
    }
}

/// Stores are stores: a byte that is stored is what its address holds then, a word that is
/// stored takes as many addresses as it has bytes and leaves its digits to base 256 there, the
/// lowest one first, every other address holds what it held, and stores count in their order.
pub proof fn law_stores(mem: Memory, ws: Seq<UserWrite>, addr: usize, byte: u8, word: usize, x: int)
    ensures
        store_all(mem, Seq::empty()) == mem,
        ({
            let before = store_all(mem, ws);
            let after = store_all(mem, ws.push(UserWrite::Byte { addr, byte }));
            after(x) == if x == addr {
                byte
            } else {
                before(x)
            }
        }),
        ({
            let before = store_all(mem, ws);
            let after = store_all(mem, ws.push(UserWrite::Word { addr, word }));
            if addr <= x < addr + size_of::<usize>() {
                after(x) as int == (word as int / pow(256, (x - addr) as nat)) % 256
            } else {
                after(x) == before(x)
            }
        }),
{
    let b = UserWrite::Byte { addr, byte };
    let w = UserWrite::Word { addr, word };
    assert(ws.push(b).drop_last() =~= ws);
    assert(ws.push(w).drop_last() =~= ws);
    if addr <= x < addr + size_of::<usize>() {
        law_word_bytes_are_digits(word, (x - addr) as nat);
    }
}

proof fn lemma_word_digits(mem: Memory, addr: int, v: usize)
    requires
        holds_word(mem, addr, v),
    ensures
        forall|k: int|
            0 <= k < size_of::<usize>() ==> #[trigger] mem(addr + k) as int == (v as int / pow(
                256,
                k as nat,
            )) % 256,
{
    assert forall|k: int| 0 <= k < size_of::<usize>() implies #[trigger] mem(addr + k) as int == (
    v as int / pow(256, k as nat)) % 256 by {
        law_word_bytes_are_digits(v, k as nat);
    }
}

/// A program finds every argument whole. Let the arguments be laid out on a stack and stored.
/// Then there is a pointer for each argument such that
/// - the pointers stand side by side from `argv_base` on, word after word, with a null pointer
///   behind them that ends where the stack starts;
/// - each pointer leads to the UTF-8 bytes of its argument, all of them, and a zero byte;
/// - the arguments lie side by side below the pointers, the first one highest;
/// - the stack pointer is the highest word boundary that is not above the lowest of them;
/// - and no byte below the stack pointer, or from the top of the stack on, is touched.
pub proof fn law_args_are_whole(
    mem: Memory,
    args: &Vec<String>,
    ustack_top: usize,
    stack: ArgStack,
)
    requires
        call_ensures(args_fit, (args, ustack_top), true),
        call_ensures(push_args, (args, ustack_top), stack),
    ensures
        ({
            let m = store_all(mem, stack.writes@);
            let w = size_of::<usize>() as int;
            let n = args@.len() as int;
            let argv = stack.argv_base as int;
            &&& exists|ptrs: Seq<usize>|
                {
                    &&& #[trigger] ptrs.len() == n
                    &&& forall|i: int, k: int|
                        0 <= i < n && 0 <= k < w ==> #[trigger] m(argv + i * w + k) as int == (
                        ptrs[i] as int / pow(256, k as nat)) % 256
                    &&& forall|i: int, k: int|
                        0 <= i < n && 0 <= k < encode_utf8(args@[i]@).len() ==> #[trigger] m(
                            ptrs[i] + k,
                        ) == encode_utf8(args@[i]@)[k]
                    &&& forall|i: int|
                        0 <= i < n ==> m(
                            (#[trigger] ptrs[i]) + encode_utf8(args@[i]@).len(),
                        ) == 0
                    &&& forall|i: int|
                        0 <= i < n ==> (#[trigger] ptrs[i]) + encode_utf8(args@[i]@).len() + 1 == (
                        if i == 0 {
                            argv
                        } else {
                            ptrs[i - 1] as int
                        })
                    &&& {
                        let low = if n == 0 {
                            argv
                        } else {
                            ptrs[n - 1] as int
                        };
                        stack.user_sp <= low < stack.user_sp + w
                    }
                }
            &&& forall|k: int| 0 <= k < w ==> #[trigger] m(argv + n * w + k) == 0
            &&& argv + n * w + w == ustack_top
            &&& stack.user_sp as int % w == 0
            &&& forall|x: int|
                x < stack.user_sp || ustack_top <= x ==> #[trigger] m(x) == mem(x)
        }),
{
    lemma_args_are_whole(mem, args@, ustack_top as int);
}

/// What [`law_args_are_whole`] says, of the stores themselves.
pub proof fn lemma_args_are_whole(mem: Memory, args: Seq<String>, top: int)
    requires
        stack_need(arg_bytes(args)) <= top <= usize::MAX,
    ensures
        ({
            let a = arg_bytes(args);
            let m = store_all(mem, user_writes(a, top));
            let w = size_of::<usize>() as int;
            let n = args.len() as int;
            let argv = argv_start(a, top);
            let sp = stack_pointer(a, top);
            &&& 0 <= sp <= argv <= top
            &&& exists|ptrs: Seq<usize>|
                {
                    &&& #[trigger] ptrs.len() == n
                    &&& forall|i: int, k: int|
                        0 <= i < n && 0 <= k < w ==> #[trigger] m(argv + i * w + k) as int == (
                        ptrs[i] as int / pow(256, k as nat)) % 256
                    &&& forall|i: int, k: int|
                        0 <= i < n && 0 <= k < encode_utf8(args[i]@).len() ==> #[trigger] m(
                            ptrs[i] + k,
                        ) == encode_utf8(args[i]@)[k]
                    &&& forall|i: int|
                        0 <= i < n ==> m((#[trigger] ptrs[i]) + encode_utf8(args[i]@).len()) == 0
                    &&& forall|i: int|
                        0 <= i < n ==> (#[trigger] ptrs[i]) + encode_utf8(args[i]@).len() + 1 == (
                        if i == 0 {
                            argv
                        } else {
                            ptrs[i - 1] as int
                        })
                    &&& {
                        let low = if n == 0 {
                            argv
                        } else {
                            ptrs[n - 1] as int
                        };
                        sp <= low < sp + w
                    }
                }
            &&& forall|k: int| 0 <= k < w ==> #[trigger] m(argv + n * w + k) == 0
            &&& argv + n * w + w == top
            &&& sp % w == 0
            &&& forall|x: int| x < sp || top <= x ==> #[trigger] m(x) == mem(x)
        }),
{
    let a = arg_bytes(args);
    let m = store_all(mem, user_writes(a, top));
    let w = size_of::<usize>() as int;
    let n = args.len() as int;
    let argv = argv_start(a, top);
    law_args_read_back(mem, a, top);
    law_stack_pointer_aligned(a, top);
    lemma_word_size();
    assert(n * w + w == (n + 1) * w) by (nonlinear_arith);
    assert(0 <= n * w) by (nonlinear_arith)
        requires
            0 <= n,
            0 <= w,
    ;
    let ptrs = Seq::new(args.len(), |i: int| arg_addr(a, top, i) as usize);
    assert forall|i: int| 0 <= i < n implies 0 <= #[trigger] arg_addr(a, top, i) <= usize::MAX by {
        lemma_strings_size_monotone(a, (i + 1) as nat, a.len());
    }
    assert forall|i: int, k: int| 0 <= i < n && 0 <= k < w implies #[trigger] m(
        argv + i * w + k,
    ) as int == (ptrs[i] as int / pow(256, k as nat)) % 256 by {
        assert(holds_word(m, argv_slot(a, top, i), arg_addr(a, top, i) as usize));
        lemma_word_digits(m, argv_slot(a, top, i), ptrs[i]);
        assert(m(argv_slot(a, top, i) + k) as int == (ptrs[i] as int / pow(256, k as nat)) % 256);
    }
    assert forall|i: int, k: int| 0 <= i < n && 0 <= k < encode_utf8(args[i]@).len() implies
        #[trigger] m(ptrs[i] + k) == encode_utf8(args[i]@)[k] by {
        assert(holds_string(m, arg_addr(a, top, i), a[i]));
        assert(m(arg_addr(a, top, i) + k) == a[i][k]);
    }
    assert forall|i: int| 0 <= i < n implies m(
        (#[trigger] ptrs[i]) + encode_utf8(args[i]@).len(),
    ) == 0 by {
        assert(holds_string(m, arg_addr(a, top, i), a[i]));
    }
    assert forall|i: int| 0 <= i < n implies (#[trigger] ptrs[i]) + encode_utf8(args[i]@).len() + 1
        == (if i == 0 {
        argv
    } else {
        ptrs[i - 1] as int
    }) by {
        assert(0 <= arg_addr(a, top, i));
        assert(strings_size(a, (i + 1) as nat) == strings_size(a, i as nat) + a[i].len() + 1);
        if i > 0 {
            assert(0 <= arg_addr(a, top, i - 1));
        }
    }
    if n > 0 {
        assert(0 <= arg_addr(a, top, n - 1));
    }
    lemma_word_digits(m, argv_slot(a, top, n), 0);
    assert forall|k: int| 0 <= k < w implies #[trigger] m(argv + n * w + k) == 0 by {
        vstd::arithmetic::power::lemma_pow_positive(256, k as nat);
        assert(m(argv_slot(a, top, n) + k) as int == (0int / pow(256, k as nat)) % 256);
        assert(0int / pow(256, k as nat) == 0) by (nonlinear_arith)
            requires
                pow(256, k as nat) > 0,
        ;
    }
    assert(ptrs.len() == n);
}

/// How much room arguments take: none take a word, for the null pointer that closes the
/// pointers; and one more argument takes a word for its pointer, its UTF-8 bytes, and a zero
/// byte. So a stack fits `less` and one more argument if and only if it fits `less` when it is
/// lower by as much.
pub proof fn law_room_for_arguments(
    less: &Vec<String>,
    more: &Vec<String>,
    ustack_top: usize,
    lower: usize,
    fit: bool,
    less_fit: bool,
)
    requires
        call_ensures(args_fit, (more, ustack_top), fit),
        call_ensures(args_fit, (less, lower), less_fit),
    ensures
        more@.len() == 0 ==> fit == (size_of::<usize>() <= ustack_top),
        more@.len() == less@.len() + 1 && more@.drop_last() == less@ ==> {
            let room = size_of::<usize>() + encode_utf8(more@.last()@).len() + 1;
            &&& ustack_top == lower + room ==> fit == less_fit
            &&& ustack_top < room ==> !fit
        },
{
    let a = arg_bytes(less@);
    let b = arg_bytes(more@);
    let w = word_size() as int;
    lemma_word_size();
    if more@.len() == less@.len() + 1 && more@.drop_last() == less@ {
        let n = a.len();
        assert forall|i: int| 0 <= i < n implies a[i] == b[i] by {
            assert(more@.drop_last()[i] == more@[i]);
        }
        lemma_strings_size_same(a, b, n);
        assert(strings_size(b, b.len()) == strings_size(b, n) + b[n as int].len() + 1);
        assert((n + 2) * w == (n + 1) * w + w) by (nonlinear_arith);
        assert(0 <= (n + 1) * w) by (nonlinear_arith)
            requires
                0 <= w,
        ;
    }
}

proof fn lemma_strings_size_same(a: Seq<Seq<u8>>, b: Seq<Seq<u8>>, n: nat)
    requires
        n <= a.len(),
        n <= b.len(),
        forall|i: int| 0 <= i < n ==> a[i] == b[i],
    ensures
        strings_size(a, n) == strings_size(b, n),
    decreases n,
{
    if n > 0 {
        lemma_strings_size_same(a, b, (n - 1) as nat);
    }
}

} // verus!
