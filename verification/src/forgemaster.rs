//! Forgemaster: an agent that answers system bottles, logs cycles and emits
//! quality signals whose trits conserve the trit sum of each request.
use vstd::prelude::*;
use vstd::string::StringExecFns;
use crate::bottle::{Bottle, exact_total, fits_i32, lemma_trit_total_concat, raw_payload_pay, trit_total};
use crate::lifecycle::{AgentState, lemma_act_names_distinct, state_after, transition_allowed};
use crate::runner::{Agent, AgentReport, AgentRunner, RunnerError, admitted, conservation_verdict};
use crate::text::{decimal, push_decimal_utf8, push_utf8, str_eq, utf8, utf8_vec};

verus! {

/// The base pattern of the quality signal in a given phase of the cycle count.
pub open spec fn quality_base(phase: nat) -> Seq<i8> {
    if phase % 3 == 0 {
        seq![1i8, 0i8, 1i8]
    } else if phase % 3 == 1 {
        seq![0i8, 0i8, 0i8]
    } else {
        seq![-1i8, 0i8, 1i8]
    }
}

/// `n` copies of one trit.
pub open spec fn repeated(t: i8, n: nat) -> Seq<i8> {
    Seq::new(n, |i: int| t)
}

/// The quality signal for a phase and a target sum: the base pattern, followed
/// by as many `+1` (or `-1`) trits as it takes to bring its sum to the target.
pub open spec fn quality_signal(phase: nat, target: int) -> Seq<i8> {
    let diff = target - trit_total(quality_base(phase));
    if diff > 0 {
        quality_base(phase) + repeated(1i8, diff as nat)
    } else if diff < 0 {
        quality_base(phase) + repeated(-1i8, (-diff) as nat)
    } else {
        quality_base(phase)
    }
}

/// The action of the Forgemaster's reply to a bottle with action `act`.
pub open spec fn reply_act(act: Seq<char>) -> Seq<char> {
    if act == "system.init"@ {
        "system.init.ack"@
    } else if act == "system.ping"@ {
        "system.pong"@
    } else if act == "system.suspend"@ {
        "system.suspend.ack"@
    } else if act == "system.resume"@ {
        "system.resume.ack"@
    } else if act == "system.terminate"@ {
        "system.terminate.ack"@
    } else if act == "cycle.request"@ {
        "cycle.complete"@
    } else {
        "unknown.ack"@
    }
}

/// The raw payload bytes of the Forgemaster's reply to a bottle with action
/// `act`, where `cycle` is its cycle count after the bottle.
pub open spec fn reply_payload(act: Seq<char>, cycle: nat) -> Seq<u8> {
    if act == "system.init"@ {
        utf8("initialized"@)
    } else if act == "system.ping"@ {
        utf8("pong"@)
    } else if act == "system.suspend"@ {
        utf8("suspended"@)
    } else if act == "system.resume"@ {
        utf8("resumed"@)
    } else if act == "system.terminate"@ {
        utf8("terminated"@)
    } else if act == "cycle.request"@ {
        utf8("cycle#"@) + utf8(decimal(cycle))
    } else {
        utf8("unknown action: "@) + utf8(act)
    }
}

/// The Forgemaster's own state after a bottle with action `act`: it follows
/// the system action named, whatever state it was in.
pub open spec fn forgemaster_state(from: AgentState, act: Seq<char>) -> AgentState {
    if act == "system.init"@ {
        AgentState::Active
    } else if act == "system.suspend"@ {
        AgentState::Suspended
    } else if act == "system.resume"@ {
        AgentState::Active
    } else if act == "system.terminate"@ {
        AgentState::Terminated
    } else {
        from
    }
}

/// How the Forgemaster `before` answers `bottle` with `out` and becomes
/// `after`: it records the action, follows any system action it names, counts
/// a cycle for a cycle request, and replies to the sender with the reply
/// action, the reply payload, and either the input's trits or, for a cycle
/// request, the quality signal for the input's trit sum.
pub open spec fn forgemaster_answers(before: Forgemaster, bottle: Bottle, out: Bottle, after: Forgemaster) -> bool {
    &&& after.last_action@ == bottle.act@
    &&& after.state == forgemaster_state(before.state, bottle.act@)
    &&& after.cycle_count == (if bottle.act@ == "cycle.request"@ {
        (before.cycle_count + 1) as u64
    } else {
        before.cycle_count
    })
    &&& out.ver == 1
    &&& out.src@ == "forgemaster"@
    &&& out.tgt@ == bottle.src@
    &&& out.act@ == reply_act(bottle.act@)
    &&& out.trits@ == (if bottle.act@ == "cycle.request"@ {
        quality_signal(after.cycle_count as nat, trit_total(bottle.trits@))
    } else {
        bottle.trits@
    })
    &&& out.enc@ == "msgpack"@
    &&& out.pay@ == raw_payload_pay(reply_payload(bottle.act@, after.cycle_count as nat))
    &&& out.ttl == 300
}

/// Whether the Forgemaster, having completed `cycles` cycles, can answer a
/// bottle: a cycle request must leave room for one more cycle, carry a trit
/// sum that is an `i32`, and leave the quality signal a difference to its base
/// pattern whose magnitude is an `i32`.
pub open spec fn forgemaster_accepts(cycles: u64, bottle: Bottle) -> bool {
    bottle.act@ == "cycle.request"@ ==> {
        &&& cycles < u64::MAX
        &&& fits_i32(trit_total(bottle.trits@))
        &&& trit_total(bottle.trits@) - trit_total(quality_base((cycles + 1) as nat)) > i32::MIN
    }
}

/// The cycle request action is none of the system actions.
pub proof fn lemma_cycle_request_distinct()
    ensures
        "cycle.request"@ != "system.init"@,
        "cycle.request"@ != "system.ping"@,
        "cycle.request"@ != "system.suspend"@,
        "cycle.request"@ != "system.resume"@,
        "cycle.request"@ != "system.terminate"@,
{
    reveal_strlit("cycle.request");
    reveal_strlit("system.init");
    reveal_strlit("system.ping");
    reveal_strlit("system.suspend");
    reveal_strlit("system.resume");
    reveal_strlit("system.terminate");
    assert("cycle.request"@.len() != "system.init"@.len());
    assert("cycle.request"@.len() != "system.ping"@.len());
    assert("cycle.request"@.len() != "system.suspend"@.len());
    assert("cycle.request"@[0] != "system.resume"@[0]);
    assert("cycle.request"@.len() != "system.terminate"@.len());
}

/// On every bottle that the lifecycle admits, the Forgemaster moves to the
/// same state as the runner that wraps it.
pub proof fn lemma_forgemaster_follows_lifecycle(from: AgentState, act: Seq<char>)
    requires
        transition_allowed(from, act),
    ensures
        forgemaster_state(from, act) == state_after(from, act),
{
    lemma_act_names_distinct();
}

/// A runner around a Forgemaster keeps the two in step: if the runner's
/// lifecycle state and the Forgemaster's own state agree before a bottle, they
/// agree after it, whatever the runner answers.
pub proof fn lemma_runner_keeps_forgemaster_in_step(
    before: AgentRunner<Forgemaster>,
    bottle: Bottle,
    r: Result<Bottle, RunnerError>,
    after: AgentRunner<Forgemaster>,
)
    requires
        before.wrapped().state == before.lifecycle(),
        before.received(bottle, r, after),
    ensures
        after.wrapped().state == after.lifecycle(),
{
    if admitted(before.lifecycle(), bottle.act@) {
        let response = choose|response: Bottle|
            before.wrapped().answers(bottle, response, after.wrapped())
            && r == #[trigger] conservation_verdict(trit_total(bottle.trits@) as i32, response);
        lemma_forgemaster_follows_lifecycle(before.lifecycle(), bottle.act@);
        assert(forgemaster_answers(before.wrapped(), bottle, response, after.wrapped()));
    }
}

/// The quality pattern depends on the cycle count modulo 3 alone: positive
/// `[1, 0, 1]` on multiples of 3, neutral `[0, 0, 0]` one past them, and mixed
/// `[-1, 0, 1]` two past them.
pub proof fn lemma_quality_base_by_phase(phase: nat)
    ensures
        quality_base(phase) == quality_base(phase % 3),
        phase % 3 == 0 ==> quality_base(phase) == seq![1i8, 0i8, 1i8],
        phase % 3 == 1 ==> quality_base(phase) == seq![0i8, 0i8, 0i8],
        phase % 3 == 2 ==> quality_base(phase) == seq![-1i8, 0i8, 1i8],
{
    assert((phase % 3) % 3 == phase % 3) by (nonlinear_arith);
}

/// Every Forgemaster reply comes from "forgemaster", goes back to the sender
/// of the bottle it answers, is version 1, msgpack-encoded, with TTL 300,
/// and records the bottle's action as the last one seen.
pub proof fn lemma_reply_envelope(before: Forgemaster, bottle: Bottle, out: Bottle, after: Forgemaster)
    requires
        forgemaster_answers(before, bottle, out, after),
    ensures
        out.src@ == "forgemaster"@,
        out.tgt@ == bottle.src@,
        out.ver == 1,
        out.enc@ == "msgpack"@,
        out.ttl == 300,
        after.last_action@ == bottle.act@,
{
}

/// The Forgemaster's answers, action by action, whatever state it is in:
/// each system action is acknowledged and moves its state to the one the
/// action names (ping changes nothing), a cycle request is counted and
/// answered with `cycle.complete` and a signal carrying the request's trit
/// sum, and any other action is echoed back with its trits in `unknown.ack`.
pub proof fn lemma_reply_table(before: Forgemaster, bottle: Bottle, out: Bottle, after: Forgemaster)
    requires
        forgemaster_accepts(before.cycle_count, bottle),
        forgemaster_answers(before, bottle, out, after),
    ensures
        bottle.act@ == "system.init"@ ==> out.act@ == "system.init.ack"@ && after.state == AgentState::Active,
        bottle.act@ == "system.ping"@ ==> out.act@ == "system.pong"@ && after.state == before.state,
        bottle.act@ == "system.suspend"@ ==> out.act@ == "system.suspend.ack"@ && after.state
            == AgentState::Suspended,
        bottle.act@ == "system.resume"@ ==> out.act@ == "system.resume.ack"@ && after.state == AgentState::Active,
        bottle.act@ == "system.terminate"@ ==> out.act@ == "system.terminate.ack"@ && after.state
            == AgentState::Terminated,
        bottle.act@ == "cycle.request"@ ==> out.act@ == "cycle.complete"@ && after.state == before.state
            && after.cycle_count == before.cycle_count + 1 && trit_total(out.trits@) == trit_total(
            bottle.trits@,
        ) && out.trits@.subrange(0, 3) == quality_base(after.cycle_count as nat),
        bottle.act@ != "system.init"@ && bottle.act@ != "system.ping"@ && bottle.act@ != "system.suspend"@
            && bottle.act@ != "system.resume"@ && bottle.act@ != "system.terminate"@ && bottle.act@
            != "cycle.request"@ ==> out.act@ == "unknown.ack"@ && out.trits@ == bottle.trits@ && after.state
            == before.state && after.cycle_count == before.cycle_count,
        bottle.act@ != "cycle.request"@ ==> out.trits@ == bottle.trits@ && after.cycle_count == before.cycle_count,
{
    lemma_act_names_distinct();
    lemma_cycle_request_distinct();
    if bottle.act@ == "cycle.request"@ {
        lemma_quality_signal(after.cycle_count as nat, trit_total(bottle.trits@));
    }
}

/// The base pattern of the quality signal in phase `phase % 3`.
pub fn quality_pattern(phase: u64) -> (r: Vec<i8>)
    ensures
        r@ == quality_base(phase as nat),
{
    let r = if phase % 3 == 0 {
        vec![1i8, 0i8, 1i8]
    } else if phase % 3 == 1 {
        vec![0i8, 0i8, 0i8]
    } else {
        vec![-1i8, 0i8, 1i8]
    };
    assert(r@ =~= quality_base(phase as nat));
    r
}

/// The trit sums of the three base patterns.
proof fn lemma_quality_base_total(phase: nat)
    ensures
        trit_total(quality_base(phase)) == (if phase % 3 == 0 { 2int } else { 0int }),
{
    let b = quality_base(phase);
    reveal_with_fuel(trit_total, 4);
    assert(b.drop_last().drop_last().drop_last() =~= Seq::<i8>::empty());
}

/// The trit sum of `n` copies of `t`.
proof fn lemma_repeated_total(t: i8, n: nat)
    ensures
        trit_total(repeated(t, n)) == t * n,
    decreases n,
{
    if n > 0 {
        assert(repeated(t, n).drop_last() =~= repeated(t, (n - 1) as nat));
        lemma_repeated_total(t, (n - 1) as nat);
        assert(t * n == t * (n - 1) + t) by (nonlinear_arith);
    }
}

/// The quality signal always sums to its target, has its base pattern as a
/// prefix, and holds only the trits -1, 0 and +1.
pub proof fn lemma_quality_signal(phase: nat, target: int)
    ensures
        trit_total(quality_signal(phase, target)) == target,
        quality_signal(phase, target).len() >= 3,
        quality_signal(phase, target).subrange(0, 3) == quality_base(phase),
        forall|i: int| 0 <= i < quality_signal(phase, target).len() ==> -1 <= #[trigger] quality_signal(phase, target)[i] <= 1,
{
    let base = quality_base(phase);
    let diff = target - trit_total(base);
    lemma_quality_base_total(phase);
    if diff > 0 {
        lemma_repeated_total(1i8, diff as nat);
        lemma_trit_total_concat(base, repeated(1i8, diff as nat));
    } else if diff < 0 {
        lemma_repeated_total(-1i8, (-diff) as nat);
        lemma_trit_total_concat(base, repeated(-1i8, (-diff) as nat));
    }
    assert(quality_signal(phase, target).subrange(0, 3) =~= base);
}

/// The Forgemaster agent: it forges quality signals from cycle requests, and
/// tracks its lifecycle state, the number of cycles and the last action seen.
pub struct Forgemaster {
    pub state: AgentState,
    pub cycle_count: u64,
    pub last_action: String,
}

impl Forgemaster {
    /// A fresh Forgemaster: in `Init`, no cycles, no action seen.
    pub fn new() -> (r: Self)
        ensures
            r.state == AgentState::Init,
            r.cycle_count == 0,
            r.last_action@ == Seq::<char>::empty(),
    {
        Forgemaster { state: AgentState::Init, cycle_count: 0, last_action: String::new() }
    }

    /// Generates a quality signal as a trit vector whose sum is `target_sum`:
    /// quality is encoded in the pattern of the trits, not in their total.
    pub fn quality_signal_for_sum(&self, target_sum: i32) -> (r: Vec<i8>)
        requires
            target_sum - trit_total(quality_base(self.cycle_count as nat)) > i32::MIN,
        ensures
            r@ == quality_signal(self.cycle_count as nat, target_sum as int),
    {
        let base = quality_pattern(self.cycle_count);
        let base_sum: i128 = exact_total(&base);
        proof {
            lemma_quality_base_total(self.cycle_count as nat);
        }
        let diff: i32 = target_sum - base_sum as i32;
        let mut result = base;
        let ghost base_seq = result@;
        if diff > 0 {
            let mut k: i32 = 0;
            while k < diff
                invariant
                    0 <= k <= diff,
                    result@ == base_seq + repeated(1i8, k as nat),
                decreases diff - k,
            {
                result.push(1i8);
                k = k + 1;
                assert(result@ =~= base_seq + repeated(1i8, k as nat));
            }
        } else if diff < 0 {
            let count: i32 = -diff;
            let mut k: i32 = 0;
            while k < count
                invariant
                    0 <= k <= count,
                    result@ == base_seq + repeated(-1i8, k as nat),
                decreases count - k,
            {
                result.push(-1i8);
                k = k + 1;
                assert(result@ =~= base_seq + repeated(-1i8, k as nat));
            }
        } else {
            assert(result@ =~= base_seq);
        }
        result
    }

    /// Whether this Forgemaster can answer `bottle` now.
    pub fn can_receive(&self, bottle: &Bottle) -> (r: bool)
        ensures
            r == forgemaster_accepts(self.cycle_count, *bottle),
    {
        if !str_eq(bottle.act.as_str(), "cycle.request") {
            return true;
        }
        if self.cycle_count == u64::MAX {
            return false;
        }
        let total = bottle.exact_trit_sum();
        if total < i32::MIN as i128 || total > i32::MAX as i128 {
            return false;
        }
        let base = quality_pattern(self.cycle_count + 1);
        let base_sum = exact_total(&base);
        proof {
            lemma_quality_base_total((self.cycle_count + 1) as nat);
        }
        total - base_sum > i32::MIN as i128
    }
}

impl Default for Forgemaster {
    fn default() -> (r: Self)
        ensures
            r.state == AgentState::Init,
            r.cycle_count == 0,
            r.last_action@ == Seq::<char>::empty(),
    {
        Self::new()
    }
}

impl Agent for Forgemaster {
    open spec fn accepts(&self, bottle: Bottle) -> bool {
        forgemaster_accepts(self.cycle_count, bottle)
    }

    open spec fn conserves(&self) -> bool {
        true
    }

    open spec fn answers(&self, bottle: Bottle, out: Bottle, after: Self) -> bool {
        forgemaster_answers(*self, bottle, out, after)
    }

    open spec fn reports(&self, report: AgentReport) -> bool {
        &&& report.state == self.state
        &&& report.cycle_count == self.cycle_count
        &&& report.last_action@ == self.last_action@
    }

    fn receive(&mut self, bottle: Bottle) -> (out: Bottle)
        ensures
            forgemaster_answers(*old(self), bottle, out, *final(self)),
            trit_total(out.trits@) == trit_total(bottle.trits@),
    {
        self.last_action = bottle.act.clone();
        let act = bottle.act.as_str();
        proof {
            lemma_act_names_distinct();
            lemma_cycle_request_distinct();
        }
        if str_eq(act, "system.init") {
            self.state = AgentState::Active;
            Bottle::new_raw("forgemaster", bottle.src.as_str(), "system.init.ack", bottle.trits, utf8_vec("initialized"), 300)
        } else if str_eq(act, "system.ping") {
            Bottle::new_raw("forgemaster", bottle.src.as_str(), "system.pong", bottle.trits, utf8_vec("pong"), 300)
        } else if str_eq(act, "system.suspend") {
            self.state = AgentState::Suspended;
            Bottle::new_raw("forgemaster", bottle.src.as_str(), "system.suspend.ack", bottle.trits, utf8_vec("suspended"), 300)
        } else if str_eq(act, "system.resume") {
            self.state = AgentState::Active;
            Bottle::new_raw("forgemaster", bottle.src.as_str(), "system.resume.ack", bottle.trits, utf8_vec("resumed"), 300)
        } else if str_eq(act, "system.terminate") {
            self.state = AgentState::Terminated;
            Bottle::new_raw("forgemaster", bottle.src.as_str(), "system.terminate.ack", bottle.trits, utf8_vec("terminated"), 300)
        } else if str_eq(act, "cycle.request") {
            self.cycle_count = self.cycle_count + 1;
            let input_sum = bottle.trit_sum();
            let quality_trits = self.quality_signal_for_sum(input_sum);
            proof {
                lemma_quality_signal(self.cycle_count as nat, input_sum as int);
            }
            let mut payload = utf8_vec("cycle#");
            push_decimal_utf8(&mut payload, self.cycle_count);
            Bottle::new_raw("forgemaster", bottle.src.as_str(), "cycle.complete", quality_trits, payload, 300)
        } else {
            let mut payload = utf8_vec("unknown action: ");
            push_utf8(&mut payload, act);
            Bottle::new_raw("forgemaster", bottle.src.as_str(), "unknown.ack", bottle.trits, payload, 300)
        }
    }

    fn inspect(&self) -> (r: AgentReport)
        ensures
            r.state == self.state,
            r.cycle_count == self.cycle_count,
            r.last_action@ == self.last_action@,
    {
        AgentReport { state: self.state, cycle_count: self.cycle_count, last_action: self.last_action.clone() }
    }
}

} // verus!
