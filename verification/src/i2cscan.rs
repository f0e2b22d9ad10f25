//! The bus scanner: which addresses are asked, and what is reported of them.

use vstd::prelude::*;

use crate::numbers::decimal;
use crate::numbers::hex_byte;
use crate::numbers::push_decimal;
use crate::numbers::push_hex;

verus! {

/// The first address that is asked.
pub const FIRST_ADDR: u8 = 0x08;

/// The last address that is asked.
pub const LAST_ADDR: u8 = 0x77;

/// How many addresses acknowledged.
pub open spec fn acks(answers: Seq<bool>) -> nat
    decreases answers.len(),
{
    if answers.len() == 0 {
        0
    } else {
        acks(answers.drop_last()) + if answers.last() {
            1nat
        } else {
            0nat
        }
    }
}

/// A scan of the bus: every address is asked once, in order.
pub struct Scan {
    /// The address that is asked next.
    pub next: u8,
    pub found: u32,
    /// Whether the addresses asked so far acknowledged.
    pub answers: Ghost<Seq<bool>>,
}

/// The start of every line about the bus with the given name.
pub open spec fn line_head(name: Seq<char>) -> Seq<char> {
    "["@ + name + "] "@
}

impl Scan {
    /// What holds of every scan.
    pub open spec fn valid(self) -> bool {
        &&& FIRST_ADDR <= self.next <= LAST_ADDR + 1
        &&& self.answers@.len() == self.next - FIRST_ADDR
        &&& self.found == acks(self.answers@)
        &&& self.found <= self.answers@.len()
    }

    /// A scan at its start.
    pub fn new() -> (r: Scan)
        ensures
            r.valid(),
            r.answers@.len() == 0,
    {
        Scan { next: FIRST_ADDR, found: 0, answers: Ghost(Seq::empty()) }
    }

    /// The address to ask, until all were asked.
    pub fn address(&self) -> (r: Option<u8>)
        requires
            self.valid(),
        ensures
            r == (if self.next <= LAST_ADDR {
                Some(self.next)
            } else {
                None
            }),
            r is None <==> self.answers@.len() == LAST_ADDR - FIRST_ADDR + 1,
    {
        if self.next <= LAST_ADDR {
            Some(self.next)
        } else {
            None
        }
    }

    /// Takes the answer of the address that was asked; gives the line to report, where
    /// it acknowledged.
    pub fn resume(&mut self, name: &str, ack: bool) -> (r: Option<String>)
        requires
            old(self).valid(),
            old(self).next <= LAST_ADDR,
        ensures
            final(self).valid(),
            final(self).next == old(self).next + 1,
            final(self).answers@ == old(self).answers@.push(ack),
            r is Some <==> ack,
            r matches Some(line) ==> line@ == line_head(name@) + "ACK at 0x"@ + hex_byte(
                old(self).next,
            ),
    {
        let addr: u8 = self.next;
        let ghost so_far = self.answers@;
        assert(so_far.push(ack).drop_last() =~= so_far);
        self.next = addr + 1;
        self.answers = Ghost(self.answers@.push(ack));
        if ack {
            self.found += 1;
            let mut line = head(name);
            line.append("ACK at 0x");
            push_hex(&mut line, addr);
            Some(line)
        } else {
            None
        }
    }

    /// The line that closes the report.
    pub fn summary(&self, name: &str) -> (r: String)
        requires
            self.valid(),
        ensures
            r@ == line_head(name@) + "done, "@ + decimal(acks(self.answers@)) + " device(s)"@,
    {
        let mut line = head(name);
        line.append("done, ");
        push_decimal(&mut line, self.found as u64);
        line.append(" device(s)");
        line
    }
}

/// The start of every line about the bus with the given name.
fn head(name: &str) -> (r: String)
    ensures
        r@ == line_head(name@),
{
    let mut out = "[".to_string();
    out.append(name);
    out.append("] ");
    out
}

/// Each address that acknowledges counts once, and no other counts.
pub proof fn law_acks(answers: Seq<bool>, ack: bool)
    ensures
        acks(Seq::<bool>::empty()) == 0,
        acks(answers.push(ack)) == acks(answers) + (if ack {
            1int
        } else {
            0int
        }),
{
    assert(answers.push(ack).drop_last() == answers);
}

/// A scan starts at address 0x08 and is over, and not before, once it has asked the 112
/// addresses up to 0x77.
pub proof fn law_scan_covers_bus(scan: Scan)
    requires
        scan.valid(),
    ensures
        scan.answers@.len() == 0 <==> scan.next == 0x08,
        scan.next <= LAST_ADDR <==> scan.next <= 0x77,
        scan.next > LAST_ADDR <==> scan.answers@.len() == 112,
        scan.found == acks(scan.answers@),
{
}

} // verus!
