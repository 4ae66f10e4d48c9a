//! The strategy-stack verifier: from a signature of the expected packet
//! arrivals it derives which techniques are feasible, and it rejects a
//! configuration that asks for one that is not.

use vstd::prelude::*;
use crate::config::{Strategies, Strategy};
use crate::text::chars_of;

verus! {

/// One expected arrival.
#[derive(Debug, Clone, Copy, PartialEq, Eq, Structural)]
pub struct ResultPacket {
    pub seqnum: i128,
    pub is_fake: bool,
    pub oob: bool,
}

/// The arrival that `symbol` stands for at position `i` of a signature: `A`
/// is shifted back by one, `B` forward by one, `F` is a fake, `O` is out of
/// band, and any other symbol is an ordinary arrival at its position.
pub open spec fn arrival(symbol: char, i: int) -> ResultPacket {
    if symbol == 'A' {
        ResultPacket { seqnum: (i - 1) as i128, is_fake: false, oob: false }
    } else if symbol == 'B' {
        ResultPacket { seqnum: (i + 1) as i128, is_fake: false, oob: false }
    } else if symbol == 'F' {
        ResultPacket { seqnum: i as i128, is_fake: true, oob: false }
    } else if symbol == 'O' {
        ResultPacket { seqnum: i as i128, is_fake: false, oob: true }
    } else {
        ResultPacket { seqnum: i as i128, is_fake: false, oob: false }
    }
}

/// The arrivals that a signature spells.
pub open spec fn arrivals(signature: Seq<char>) -> Seq<ResultPacket> {
    Seq::new(signature.len(), |i: int| arrival(signature[i], i))
}

/// The arrivals that are no fakes, in order.
pub open spec fn real_arrivals(stack: Seq<ResultPacket>) -> Seq<ResultPacket> {
    stack.filter(|p: ResultPacket| !p.is_fake)
}

/// The arrival at `i` has a larger number than the one after it.
pub open spec fn descent_at(stack: Seq<ResultPacket>, i: int) -> bool {
    0 <= i && i + 1 < stack.len() && stack[i].seqnum > stack[i + 1].seqnum
}

/// The arrivals from `i` on are an ordinary one, one out of band, and an
/// ordinary one.
pub open spec fn oob_window_at(stack: Seq<ResultPacket>, i: int) -> bool {
    0 <= i && i + 2 < stack.len() && !stack[i].oob && stack[i + 1].oob && !stack[i + 2].oob
}

/// The arrival at `i` is a fake, and the one after it is neither fake nor
/// out of band.
pub open spec fn fake_then_real_at(stack: Seq<ResultPacket>, i: int) -> bool {
    0 <= i && i + 1 < stack.len() && stack[i].is_fake && !stack[i + 1].is_fake && !stack[i
        + 1].oob
}

/// Among the real arrivals some number is followed by a smaller one.
pub open spec fn disorder_feasible(stack: Seq<ResultPacket>) -> bool {
    exists|i: int| descent_at(real_arrivals(stack), i)
}

/// The signature has more than one arrival.
pub open spec fn split_feasible(stack: Seq<ResultPacket>) -> bool {
    stack.len() > 1
}

/// The first arrival is a fake.
pub open spec fn fake_feasible(stack: Seq<ResultPacket>) -> bool {
    stack.len() > 0 && stack[0].is_fake
}

/// Among the real arrivals an out-of-band one stands between two that are
/// not.
pub open spec fn oob_hell_feasible(stack: Seq<ResultPacket>) -> bool {
    exists|i: int| oob_window_at(real_arrivals(stack), i)
}

/// A fake is followed at once by an arrival that is neither fake nor out of
/// band.
pub open spec fn meltdown_feasible(stack: Seq<ResultPacket>) -> bool {
    exists|i: int| fake_then_real_at(stack, i)
}

/// Whether the signature allows what `method` needs.
pub open spec fn method_feasible(stack: Seq<ResultPacket>, method: Strategies) -> bool {
    match method {
        Strategies::DISORDER | Strategies::FAKE2DISORDER | Strategies::DISOOB => disorder_feasible(
            stack,
        ),
        Strategies::SPLIT | Strategies::DISORDER2 | Strategies::OOB | Strategies::OOB2 =>
            split_feasible(stack),
        Strategies::FAKE | Strategies::FAKEMD | Strategies::FAKESURROUND | Strategies::FAKE2INSERT =>
            fake_feasible(stack),
        Strategies::OOBSTREAMHELL => oob_hell_feasible(stack),
        Strategies::MELTDOWN | Strategies::MELTDOWNUDP => meltdown_feasible(stack),
        _ => true,
    }
}

/// Whether the signature allows every strategy of the list.
pub open spec fn all_feasible(stack: Seq<ResultPacket>, strategies: Seq<Strategy>) -> bool {
    forall|k: int| 0 <= k < strategies.len() ==> method_feasible(stack, #[trigger] strategies[k].method)
}

/// `method` is one of the techniques that rest on a reordering.
pub open spec fn needs_disorder(method: Strategies) -> bool {
    method == Strategies::DISORDER || method == Strategies::FAKE2DISORDER || method
        == Strategies::DISOOB
}

/// A list that asks for a technique resting on a reordering is not
/// feasible on a signature whose real arrivals never descend.
pub proof fn lemma_disorder_needs_descent(
    stack: Seq<ResultPacket>,
    strategies: Seq<Strategy>,
    k: int,
)
    requires
        0 <= k < strategies.len(),
        needs_disorder(strategies[k].method),
        forall|i: int| !descent_at(real_arrivals(stack), i),
    ensures
        !all_feasible(stack, strategies),
{
    assert(!method_feasible(stack, strategies[k].method));
}

/// A signature of expected arrivals.
pub struct StrategyStack {
    pub stack: Vec<ResultPacket>,
}

impl StrategyStack {
    /// Reads a signature, one arrival for each of its symbols.
    pub fn from(stack: String) -> (built: StrategyStack)
        ensures
            built.stack@ == arrivals(stack@),
    {
        let symbols: Vec<char> = chars_of(stack.as_str());
        let n: usize = symbols.len();
        let mut entries: Vec<ResultPacket> = Vec::new();
        let mut i: usize = 0;
        while i < n
            invariant
                n == symbols@.len(),
                i <= n,
                entries@ == arrivals(symbols@.take(i as int)),
            decreases n - i,
        {
            let symbol: char = symbols[i];
            let at: i128 = i as i128;
            let entry: ResultPacket = if symbol == 'A' {
                ResultPacket { seqnum: at - 1, is_fake: false, oob: false }
            } else if symbol == 'B' {
                ResultPacket { seqnum: at + 1, is_fake: false, oob: false }
            } else if symbol == 'F' {
                ResultPacket { seqnum: at, is_fake: true, oob: false }
            } else if symbol == 'O' {
                ResultPacket { seqnum: at, is_fake: false, oob: true }
            } else {
                ResultPacket { seqnum: at, is_fake: false, oob: false }
            };
            entries.push(entry);
            i += 1;
            assert(entries@ =~= arrivals(symbols@.take(i as int)));
        }
        assert(symbols@.take(n as int) =~= symbols@);
        StrategyStack { stack: entries }
    }

    fn real_entries(&self) -> (kept: Vec<ResultPacket>)
        ensures
            kept@ == real_arrivals(self.stack@),
    {
        let n: usize = self.stack.len();
        let mut kept: Vec<ResultPacket> = Vec::new();
        let mut i: usize = 0;
        assert(self.stack@.take(0) =~= Seq::<ResultPacket>::empty());
        reveal_with_fuel(Seq::filter, 2);
        while i < n
            invariant
                n == self.stack@.len(),
                i <= n,
                kept@ == real_arrivals(self.stack@.take(i as int)),
            decreases n - i,
        {
            let entry: ResultPacket = self.stack[i];
            proof {
                reveal_with_fuel(Seq::filter, 2);
                assert(self.stack@.take(i + 1).drop_last() =~= self.stack@.take(i as int));
            }
            if !entry.is_fake {
                kept.push(entry);
            }
            i += 1;
        }
        assert(self.stack@.take(n as int) =~= self.stack@);
        kept
    }

    /// Whether the real arrivals show a reordering.
    pub fn can_disorder(&self) -> (feasible: bool)
        ensures
            feasible == disorder_feasible(self.stack@),
    {
        let kept: Vec<ResultPacket> = self.real_entries();
        let n: usize = kept.len();
        let mut i: usize = 1;
        while i < n
            invariant
                n == kept@.len(),
                1 <= i,
                kept@ == real_arrivals(self.stack@),
                forall|k: int| k + 1 < i ==> !descent_at(kept@, k),
            decreases n - i,
        {
            if kept[i - 1].seqnum > kept[i].seqnum {
                assert(descent_at(kept@, i - 1));
                return true;
            }
            i += 1;
        }
        false
    }

    /// Whether the signature has more than one arrival.
    pub fn can_split(&self) -> (feasible: bool)
        ensures
            feasible == split_feasible(self.stack@),
    {
        self.stack.len() > 1
    }

    /// Whether the first arrival is a fake.
    pub fn has_fake_bit(&self) -> (feasible: bool)
        ensures
            feasible == fake_feasible(self.stack@),
    {
        self.stack.len() > 0 && self.stack[0].is_fake
    }

    /// Whether an out-of-band arrival stands between two ordinary ones.
    pub fn can_oob_hell(&self) -> (feasible: bool)
        ensures
            feasible == oob_hell_feasible(self.stack@),
    {
        let kept: Vec<ResultPacket> = self.real_entries();
        let n: usize = kept.len();
        let mut i: usize = 2;
        while i < n
            invariant
                n == kept@.len(),
                2 <= i,
                kept@ == real_arrivals(self.stack@),
                forall|k: int| k + 2 < i ==> !oob_window_at(kept@, k),
            decreases n - i,
        {
            if !kept[i - 2].oob && kept[i - 1].oob && !kept[i].oob {
                assert(oob_window_at(kept@, i - 2));
                return true;
            }
            i += 1;
        }
        false
    }

    /// Whether a fake is followed at once by an ordinary arrival.
    pub fn can_meltdown(&self) -> (feasible: bool)
        ensures
            feasible == meltdown_feasible(self.stack@),
    {
        let n: usize = self.stack.len();
        let mut i: usize = 1;
        while i < n
            invariant
                n == self.stack@.len(),
                1 <= i,
                forall|k: int| k + 1 < i ==> !fake_then_real_at(self.stack@, k),
            decreases n - i,
        {
            if self.stack[i - 1].is_fake && !self.stack[i].is_fake && !self.stack[i].oob {
                assert(fake_then_real_at(self.stack@, i - 1));
                return true;
            }
            i += 1;
        }
        false
    }

    /// Whether the signature allows what `method` needs.
    pub fn allows(&self, method: Strategies) -> (feasible: bool)
        ensures
            feasible == method_feasible(self.stack@, method),
    {
        match method {
            Strategies::DISORDER | Strategies::FAKE2DISORDER | Strategies::DISOOB =>
                self.can_disorder(),
            Strategies::SPLIT | Strategies::DISORDER2 | Strategies::OOB | Strategies::OOB2 =>
                self.can_split(),
            Strategies::FAKE
            | Strategies::FAKEMD
            | Strategies::FAKESURROUND
            | Strategies::FAKE2INSERT => self.has_fake_bit(),
            Strategies::OOBSTREAMHELL => self.can_oob_hell(),
            Strategies::MELTDOWN | Strategies::MELTDOWNUDP => self.can_meltdown(),
            _ => true,
        }
    }

    /// Checks a list of strategies against the signature: `Some(true)` where
    /// the signature allows every one of them, `None` as soon as one asks
    /// for what it does not allow.
    pub fn verify_signature(&self, strategies: Vec<Strategy>) -> (verdict: Option<bool>)
        ensures
            all_feasible(self.stack@, strategies@) ==> verdict == Some(true),
            !all_feasible(self.stack@, strategies@) ==> verdict == None::<bool>,
    {
        let n: usize = strategies.len();
        let mut k: usize = 0;
        while k < n
            invariant
                n == strategies@.len(),
                k <= n,
                forall|j: int|
                    0 <= j < k ==> method_feasible(self.stack@, #[trigger] strategies@[j].method),
            decreases n - k,
        {
            if !self.allows(strategies[k].method) {
                return None;
            }
            k += 1;
        }
        Some(true)
    }
}

} // verus!
