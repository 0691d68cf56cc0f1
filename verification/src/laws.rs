//! Properties that relate several instructions, proved over the
//! abstract transitions: chiefly that subroutine calls and returns
//! round-trip, at any nesting depth the stack can hold.

use vstd::prelude::*;

use crate::cycle::spec_step;
use crate::decode::Instr;
use crate::decode::lemma_decode_wf;
use crate::decode::spec_decode;
use crate::instr::first_pressed_from;
use crate::instr::spec_call;
use crate::instr::spec_ret;
use crate::state::MEMORY_SIZE;
use crate::state::VmState;
use crate::state::fetched_opcode;

verus! {

/// The state after calling the subroutines at `addrs`, in order,
/// starting from `s`.
pub open spec fn apply_calls(s: VmState, addrs: Seq<u16>) -> VmState
    decreases addrs.len(),
{
    if addrs.len() == 0 {
        s
    } else {
        apply_calls(spec_call(s, addrs[0])->Ok_0, addrs.skip(1))
    }
}

/// The state after `k` returns from `s`.
pub open spec fn apply_rets(s: VmState, k: nat) -> VmState
    decreases k,
{
    if k == 0 {
        s
    } else {
        apply_rets(spec_ret(s)->Ok_0, (k - 1) as nat)
    }
}

/// `t` has unwound to `u`: both agree on everything an unwinding
/// restores — program counter, stack pointer, every live stack entry,
/// and all state outside the stack. Entries above the stack pointer
/// are dead and may differ: a return pops without erasing.
pub open spec fn unwound_to(t: VmState, u: VmState) -> bool {
    &&& t.pc == u.pc
    &&& t.sp == u.sp
    &&& t.mem == u.mem
    &&& t.regs == u.regs
    &&& t.idx == u.idx
    &&& t.screen == u.screen
    &&& t.dt == u.dt
    &&& t.st == u.st
    &&& t.keys == u.keys
    &&& t.stack.len() == u.stack.len()
    &&& forall|j: int| 0 <= j < u.sp ==> t.stack[j] == u.stack[j]
}

/// A call followed by a return restores the state exactly, except that
/// the stack slot the call used now holds the return address.
pub proof fn lemma_call_ret_round_trip(s: VmState, nnn: u16)
    requires
        s.wf(),
        s.sp < 16,
    ensures
        spec_call(s, nnn) is Ok,
        spec_ret(spec_call(s, nnn)->Ok_0) is Ok,
        spec_ret(spec_call(s, nnn)->Ok_0)->Ok_0 == (VmState {
            stack: s.stack.update(s.sp as int, s.pc),
            ..s
        }),
{
}

/// Calling never touches anything but the program counter, the stack
/// pointer and the stack slots it pushes into: a chain of calls raises
/// the stack pointer by one per call and leaves the slots below the
/// original pointer alone.
proof fn lemma_apply_calls_props(s: VmState, addrs: Seq<u16>)
    requires
        s.wf(),
        s.sp + addrs.len() <= 16,
    ensures
        apply_calls(s, addrs).wf(),
        apply_calls(s, addrs).sp == s.sp + addrs.len(),
        apply_calls(s, addrs).mem == s.mem,
        apply_calls(s, addrs).regs == s.regs,
        apply_calls(s, addrs).idx == s.idx,
        apply_calls(s, addrs).screen == s.screen,
        apply_calls(s, addrs).dt == s.dt,
        apply_calls(s, addrs).st == s.st,
        apply_calls(s, addrs).keys == s.keys,
        apply_calls(s, addrs).stack.len() == s.stack.len(),
        forall|j: int| 0 <= j < s.sp ==> apply_calls(s, addrs).stack[j] == s.stack[j],
    decreases addrs.len(),
{
    if addrs.len() > 0 {
        let s1 = spec_call(s, addrs[0])->Ok_0;
        lemma_apply_calls_props(s1, addrs.skip(1));
        assert forall|j: int| 0 <= j < s.sp implies apply_calls(s, addrs).stack[j] == s.stack[j] by {
            assert(apply_calls(s, addrs) == apply_calls(s1, addrs.skip(1)));
            assert(apply_calls(s1, addrs.skip(1)).stack[j] == s1.stack[j]);
        }
    }
}

/// Appending one more call to a chain is the same as calling once from
/// the chained state.
proof fn lemma_apply_calls_push(s: VmState, addrs: Seq<u16>, a: u16)
    ensures
        apply_calls(s, addrs.push(a)) == spec_call(apply_calls(s, addrs), a)->Ok_0,
    decreases addrs.len(),
{
    let p = addrs.push(a);
    if addrs.len() == 0 {
        assert(p.skip(1) =~= Seq::<u16>::empty());
        assert(p[0] == a);
        assert(apply_calls(s, p) == apply_calls(spec_call(s, a)->Ok_0, p.skip(1)));
        assert(apply_calls(spec_call(s, a)->Ok_0, p.skip(1)) == spec_call(s, a)->Ok_0);
        assert(apply_calls(s, addrs) == s);
    } else {
        let s1 = spec_call(s, addrs[0])->Ok_0;
        assert(p.skip(1) =~= addrs.skip(1).push(a));
        assert(p[0] == addrs[0]);
        lemma_apply_calls_push(s1, addrs.skip(1), a);
        assert(apply_calls(s, p) == apply_calls(s1, p.skip(1)));
        assert(apply_calls(s, addrs) == apply_calls(s1, addrs.skip(1)));
    }
}

/// A return acts the same on two states one of which has unwound to
/// the other: it pops the same live entry.
proof fn lemma_ret_preserves_unwound(t: VmState, u: VmState)
    requires
        unwound_to(t, u),
        u.wf(),
        u.sp >= 1,
    ensures
        spec_ret(t) is Ok,
        spec_ret(u) is Ok,
        unwound_to(spec_ret(t)->Ok_0, spec_ret(u)->Ok_0),
        spec_ret(u)->Ok_0.wf(),
{
}

/// A whole chain of returns preserves the unwinding relation.
proof fn lemma_rets_preserve_unwound(t: VmState, u: VmState, k: nat)
    requires
        unwound_to(t, u),
        u.wf(),
        u.sp >= k,
    ensures
        unwound_to(apply_rets(t, k), apply_rets(u, k)),
        apply_rets(u, k).wf(),
        apply_rets(u, k).sp == u.sp - k,
    decreases k,
{
    if k > 0 {
        lemma_ret_preserves_unwound(t, u);
        lemma_rets_preserve_unwound(spec_ret(t)->Ok_0, spec_ret(u)->Ok_0, (k - 1) as nat);
    }
}

/// Returning once from a chain of calls unwinds it to the chain
/// without its last call.
proof fn lemma_ret_of_calls(s: VmState, addrs: Seq<u16>)
    requires
        s.wf(),
        s.sp + addrs.len() <= 16,
        addrs.len() >= 1,
    ensures
        unwound_to(spec_ret(apply_calls(s, addrs))->Ok_0, apply_calls(s, addrs.take(addrs.len() - 1))),
{
    let m = addrs.len() - 1;
    let prefix = addrs.take(m);
    assert(addrs =~= prefix.push(addrs[m]));
    lemma_apply_calls_push(s, prefix, addrs[m]);
    lemma_apply_calls_props(s, prefix);
}

/// After `N` nested calls, each of `k <= N` unwinding returns brings
/// the machine back to where it stood after the first `N - k` calls:
/// the program counter and the stack pointer at every unwind step are
/// exactly those of the shorter call chain, and nothing outside the
/// dead stack slots differs.
pub proof fn lemma_nested_call_ret(s: VmState, addrs: Seq<u16>, k: int)
    requires
        s.wf(),
        s.sp + addrs.len() <= 16,
        0 <= k <= addrs.len(),
    ensures
        unwound_to(
            apply_rets(apply_calls(s, addrs), k as nat),
            apply_calls(s, addrs.take(addrs.len() - k)),
        ),
    decreases addrs.len(),
{
    let all = apply_calls(s, addrs);
    if k == 0 {
        assert(addrs.take(addrs.len() as int) =~= addrs);
        lemma_apply_calls_props(s, addrs);
    } else {
        let m = addrs.len() - 1;
        let prefix = addrs.take(m);
        lemma_ret_of_calls(s, addrs);
        lemma_apply_calls_props(s, prefix);
        lemma_rets_preserve_unwound(
            spec_ret(all)->Ok_0,
            apply_calls(s, prefix),
            (k - 1) as nat,
        );
        lemma_nested_call_ret(s, prefix, k - 1);
        assert(prefix.take(prefix.len() - (k - 1)) =~= addrs.take(addrs.len() - k));
        assert(apply_rets(all, k as nat) == apply_rets(spec_ret(all)->Ok_0, (k - 1) as nat));
    }
}

/// Unwinding every call restores the original program counter and
/// stack pointer: `N` calls followed by `N` returns are a round trip.
pub proof fn lemma_call_ret_full_unwind(s: VmState, addrs: Seq<u16>)
    requires
        s.wf(),
        s.sp + addrs.len() <= 16,
    ensures
        apply_rets(apply_calls(s, addrs), addrs.len()).pc == s.pc,
        apply_rets(apply_calls(s, addrs), addrs.len()).sp == s.sp,
        apply_rets(apply_calls(s, addrs), addrs.len()).regs == s.regs,
        apply_rets(apply_calls(s, addrs), addrs.len()).mem == s.mem,
{
    lemma_nested_call_ret(s, addrs, addrs.len() as int);
    assert(addrs.take(addrs.len() - addrs.len()) =~= Seq::<u16>::empty());
}

/// When every key from `i` up is released, the scan finds nothing.
proof fn lemma_no_key_pressed(keys: Seq<u8>, i: int)
    requires
        keys.len() == 16,
        0 <= i <= 16,
        forall|k: int| i <= k < 16 ==> keys[k] == 0,
    ensures
        first_pressed_from(keys, i) == -1,
    decreases 16 - i,
{
    if i < 16 {
        lemma_no_key_pressed(keys, i + 1);
    }
}

/// When key `j` is down and no key below it is, the scan finds `j`.
proof fn lemma_first_pressed_is(keys: Seq<u8>, i: int, j: int)
    requires
        keys.len() == 16,
        0 <= i <= j < 16,
        keys[j] != 0,
        forall|k: int| i <= k < j ==> keys[k] == 0,
    ensures
        first_pressed_from(keys, i) == j,
    decreases j - i,
{
    if i < j {
        lemma_first_pressed_is(keys, i + 1, j);
    }
}

/// With every key released, a cycle that executes the key-wait
/// instruction makes no forward progress: the program counter comes
/// back to where it was, so the same instruction is fetched again, and
/// nothing else of the machine changes but the timers.
pub proof fn lemma_key_wait_blocks(s: VmState, x: u8, rnd: u8)
    requires
        s.wf(),
        s.pc + 1 < MEMORY_SIZE,
        spec_decode(fetched_opcode(s)) == Some(Instr::LdVxK { x }),
        forall|k: int| 0 <= k < 16 ==> s.keys[k] == 0,
    ensures
        spec_step(s, rnd) is Ok,
        spec_step(s, rnd)->Ok_0.pc == s.pc,
        spec_step(s, rnd)->Ok_0.regs == s.regs,
        spec_step(s, rnd)->Ok_0.mem == s.mem,
        spec_step(s, rnd)->Ok_0.screen == s.screen,
        spec_step(s, rnd)->Ok_0.sp == s.sp,
{
    lemma_no_key_pressed(s.keys, 0);
}

/// Once a key is pressed — `j`, with no lower-numbered key down — the
/// next key-wait cycle stores `j` in the target register and the
/// program counter advances normally.
pub proof fn lemma_key_wait_resumes(s: VmState, x: u8, j: int, rnd: u8)
    requires
        s.wf(),
        s.pc + 1 < MEMORY_SIZE,
        spec_decode(fetched_opcode(s)) == Some(Instr::LdVxK { x }),
        0 <= j < 16,
        s.keys[j] != 0,
        forall|k: int| 0 <= k < j ==> s.keys[k] == 0,
    ensures
        spec_step(s, rnd) is Ok,
        spec_step(s, rnd)->Ok_0.pc == s.pc + 2,
        spec_step(s, rnd)->Ok_0.regs == s.regs.update(x as int, j as u8),
{
    lemma_first_pressed_is(s.keys, 0, j);
    lemma_decode_wf(fetched_opcode(s));
}

} // verus!
