//! What a node reports about one account, its short form, and its rendering
//! as text.

use vstd::prelude::*;
use crate::text::{decimal, push_decimal};

verus! {

/// A point in the chain's schedule: a period, and a thread within it.
#[derive(Clone, Copy, Debug, PartialEq, Eq, Structural)]
pub struct Slot {
    pub period: u64,
    pub thread: u8,
}

/// Coins that stay locked until a slot is reached.
#[derive(Clone, Copy, Debug, PartialEq, Eq, Structural)]
pub struct SlotAmount {
    pub slot: Slot,
    pub amount: u64,
}

/// What an account did in one cycle.
#[derive(Clone, Copy, Debug, PartialEq, Eq, Structural)]
pub struct CycleInfo {
    pub cycle: u64,
    pub is_final: bool,
    /// Blocks produced.
    pub ok_count: u64,
    /// Blocks missed.
    pub nok_count: u64,
    /// Rolls that were active in the cycle, where the node knows them.
    pub active_rolls: Option<u64>,
}

/// The full report on one account. Balances are counted in the smallest unit
/// of the coin; cycles come oldest first.
#[derive(Clone, Debug)]
pub struct AddressInfo {
    pub address: String,
    pub thread: u8,
    pub final_balance: u64,
    pub final_roll_count: u64,
    pub candidate_balance: u64,
    pub candidate_roll_count: u64,
    pub deferred_credits: Vec<SlotAmount>,
    pub cycle_infos: Vec<CycleInfo>,
}

/// The essentials of an account.
#[derive(Clone, Debug)]
pub struct CompactAddressInfo {
    pub address: String,
    pub thread: u8,
    /// The active rolls of the latest cycle; `None` where there is no cycle or
    /// the latest one does not tell.
    pub active_rolls: Option<u64>,
    pub final_rolls: u64,
    pub candidate_rolls: u64,
    pub final_balance: u64,
    pub candidate_balance: u64,
}

/// The active rolls that the last of `cycles` reports.
pub open spec fn latest_active_rolls(cycles: Seq<CycleInfo>) -> Option<u64> {
    if cycles.len() == 0 {
        None
    } else {
        cycles.last().active_rolls
    }
}

/// A slot as text: `(period: 7, thread: 3)`.
pub open spec fn slot_text(slot: Slot) -> Seq<char> {
    "(period: "@ + decimal(slot.period as nat) + ", thread: "@ + decimal(slot.thread as nat) + ")"@
}

/// The line of one locked amount.
pub open spec fn credit_line(credit: SlotAmount) -> Seq<char> {
    "\t\t"@ + decimal(credit.amount as nat) + " locked coins will be unlocked at slot "@
        + slot_text(credit.slot) + "\n"@
}

/// The lines of `credits`, one after the other.
pub open spec fn credit_lines(credits: Seq<SlotAmount>) -> Seq<char>
    decreases credits.len(),
{
    if credits.len() == 0 {
        Seq::empty()
    } else {
        credit_lines(credits.drop_last()) + credit_line(credits.last())
    }
}

/// What follows the heading of the locked coins: a lone `0` where there are
/// none, else the line of each, the first of them on the heading's own line.
pub open spec fn locked_text(credits: Seq<SlotAmount>) -> Seq<char> {
    if credits.len() == 0 {
        "0\n"@
    } else {
        credit_lines(credits)
    }
}

/// How a cycle's line ends: with its active rolls where they are known.
pub open spec fn active_rolls_text(rolls: Option<u64>) -> Seq<char> {
    match rolls {
        Some(r) => " with "@ + decimal(r as nat) + " active rolls"@,
        None => Seq::empty(),
    }
}

/// Whether a cycle is settled, in a word.
pub open spec fn finality_text(is_final: bool) -> Seq<char> {
    if is_final {
        "final"@
    } else {
        "candidate"@
    }
}

/// The line of one cycle.
pub open spec fn cycle_line(info: CycleInfo) -> Seq<char> {
    "\t\tCycle "@ + decimal(info.cycle as nat) + " ("@ + finality_text(info.is_final)
        + "): produced "@ + decimal(info.ok_count as nat) + " and missed "@ + decimal(
        info.nok_count as nat,
    ) + " blocks"@ + active_rolls_text(info.active_rolls) + "\n"@
}

/// The lines of `cycles`, one after the other.
pub open spec fn cycle_lines(cycles: Seq<CycleInfo>) -> Seq<char>
    decreases cycles.len(),
{
    if cycles.len() == 0 {
        Seq::empty()
    } else {
        cycle_lines(cycles.drop_last()) + cycle_line(cycles.last())
    }
}

impl AddressInfo {
    /// The short form of this report.
    pub open spec fn compacted(&self) -> CompactAddressInfo {
        CompactAddressInfo {
            address: self.address,
            thread: self.thread,
            active_rolls: latest_active_rolls(self.cycle_infos@),
            final_rolls: self.final_roll_count,
            candidate_rolls: self.candidate_roll_count,
            final_balance: self.final_balance,
            candidate_balance: self.candidate_balance,
        }
    }

    /// The first three lines: who the account is, its balances, its rolls.
    pub open spec fn heading(&self) -> Seq<char> {
        "Address "@ + self.address@ + " (thread "@ + decimal(self.thread as nat) + "):\n"@
            + "\tBalance: final="@ + decimal(self.final_balance as nat) + ", candidate="@ + decimal(
            self.candidate_balance as nat,
        ) + "\n"@ + "\tRolls: final="@ + decimal(self.final_roll_count as nat) + ", candidate="@
            + decimal(self.candidate_roll_count as nat) + "\n"@
    }

    /// The whole report as text.
    pub open spec fn rendered(&self) -> Seq<char> {
        self.heading() + "\tLocked coins:"@ + locked_text(self.deferred_credits@)
            + "\tCycle infos:\n"@ + cycle_lines(self.cycle_infos@)
    }

    /// Only essential info about an address.
    pub fn compact(&self) -> (c: CompactAddressInfo)
        ensures
            c == self.compacted(),
    {
        let n = self.cycle_infos.len();
        let active_rolls = if n == 0 {
            None
        } else {
            self.cycle_infos[n - 1].active_rolls
        };
        CompactAddressInfo {
            address: self.address.clone(),
            thread: self.thread,
            active_rolls,
            final_rolls: self.final_roll_count,
            candidate_rolls: self.candidate_roll_count,
            final_balance: self.final_balance,
            candidate_balance: self.candidate_balance,
        }
    }

    /// Writes the report: a heading, the balances, the rolls, the locked
    /// coins and one line for each cycle.
    pub fn render(&self) -> (out: String)
        ensures
            out@ == self.rendered(),
    {
        let mut out = String::new();
        out.append("Address ");
        out.append(self.address.as_str());
        out.append(" (thread ");
        push_decimal(&mut out, self.thread as u64);
        out.append("):\n");
        out.append("\tBalance: final=");
        push_decimal(&mut out, self.final_balance);
        out.append(", candidate=");
        push_decimal(&mut out, self.candidate_balance);
        out.append("\n");
        out.append("\tRolls: final=");
        push_decimal(&mut out, self.final_roll_count);
        out.append(", candidate=");
        push_decimal(&mut out, self.candidate_roll_count);
        out.append("\n");
        assert(out@ =~= self.heading());
        out.append("\tLocked coins:");
        push_locked(&mut out, &self.deferred_credits);
        out.append("\tCycle infos:\n");
        push_cycles(&mut out, &self.cycle_infos);
        assert(out@ =~= self.rendered());
        out
    }
}

/// Writes a slot at the end of `out`.
fn push_slot(out: &mut String, slot: Slot)
    ensures
        final(out)@ == old(out)@ + slot_text(slot),
{
    out.append("(period: ");
    push_decimal(out, slot.period);
    out.append(", thread: ");
    push_decimal(out, slot.thread as u64);
    out.append(")");
    assert(out@ =~= old(out)@ + slot_text(slot));
}

/// Writes the line of one locked amount.
fn push_credit_line(out: &mut String, credit: SlotAmount)
    ensures
        final(out)@ == old(out)@ + credit_line(credit),
{
    out.append("\t\t");
    push_decimal(out, credit.amount);
    out.append(" locked coins will be unlocked at slot ");
    push_slot(out, credit.slot);
    out.append("\n");
    assert(out@ =~= old(out)@ + credit_line(credit));
}

/// Writes what follows the heading of the locked coins.
fn push_locked(out: &mut String, credits: &Vec<SlotAmount>)
    ensures
        final(out)@ == old(out)@ + locked_text(credits@),
{
    if credits.len() == 0 {
        out.append("0\n");
        return ;
    }
    let mut i: usize = 0;
    assert(credits@.take(0) =~= Seq::<SlotAmount>::empty());
    while i < credits.len()
        invariant
            i <= credits.len(),
            out@ == old(out)@ + credit_lines(credits@.take(i as int)),
        decreases credits.len() - i,
    {
        push_credit_line(out, credits[i]);
        proof {
            let done = credits@.take(i + 1);
            assert(done.drop_last() =~= credits@.take(i as int));
            assert(out@ =~= old(out)@ + credit_lines(done));
        }
        i = i + 1;
    }
    assert(credits@.take(i as int) =~= credits@);
}

/// Writes how a cycle's line ends.
fn push_active_rolls(out: &mut String, rolls: Option<u64>)
    ensures
        final(out)@ == old(out)@ + active_rolls_text(rolls),
{
    match rolls {
        Some(r) => {
            out.append(" with ");
            push_decimal(out, r);
            out.append(" active rolls");
            assert(out@ =~= old(out)@ + active_rolls_text(rolls));
        },
        None => {
            assert(out@ =~= old(out)@ + active_rolls_text(rolls));
        },
    }
}

/// Writes the line of one cycle.
fn push_cycle_line(out: &mut String, info: CycleInfo)
    ensures
        final(out)@ == old(out)@ + cycle_line(info),
{
    out.append("\t\tCycle ");
    push_decimal(out, info.cycle);
    out.append(" (");
    out.append(
        if info.is_final {
            "final"
        } else {
            "candidate"
        },
    );
    out.append("): produced ");
    push_decimal(out, info.ok_count);
    out.append(" and missed ");
    push_decimal(out, info.nok_count);
    out.append(" blocks");
    push_active_rolls(out, info.active_rolls);
    out.append("\n");
    assert(out@ =~= old(out)@ + cycle_line(info));
}

/// Writes the line of each cycle.
fn push_cycles(out: &mut String, cycles: &Vec<CycleInfo>)
    ensures
        final(out)@ == old(out)@ + cycle_lines(cycles@),
{
    let mut i: usize = 0;
    assert(cycles@.take(0) =~= Seq::<CycleInfo>::empty());
    assert(out@ =~= old(out)@ + cycle_lines(cycles@.take(0)));
    while i < cycles.len()
        invariant
            i <= cycles.len(),
            out@ == old(out)@ + cycle_lines(cycles@.take(i as int)),
        decreases cycles.len() - i,
    {
        push_cycle_line(out, cycles[i]);
        proof {
            let done = cycles@.take(i + 1);
            assert(done.drop_last() =~= cycles@.take(i as int));
            assert(out@ =~= old(out)@ + cycle_lines(done));
        }
        i = i + 1;
    }
    assert(cycles@.take(i as int) =~= cycles@);
}

} // verus!
