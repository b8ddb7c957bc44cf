//! The start of the multi-port server: which port to bind next, when serving
//! begins, and when the start is given up. Either every port is bound and
//! all are served, or none is.

use crate::text::{chars_of, string_of};
use vstd::prelude::*;

verus! {

/// What the server is to do next while it starts.
#[derive(Clone, Copy, Debug, PartialEq, Eq, Structural)]
pub enum Step {
    /// Bind a listener to this port, and report how it went.
    Bind(u16),
    /// Every port is bound: announce the ports and serve them all.
    Serve,
    /// This port could not be bound: give up, and serve none.
    Abort(u16),
}

/// The state of a start as mathematical values.
pub struct StartupView {
    pub ports: Seq<u16>,
    pub bound: nat,
    pub failed: bool,
}

/// The state of a start: the ports in order, how many of them are bound,
/// and whether binding the next one failed.
pub struct Startup {
    ports: Vec<u16>,
    bound: usize,
    failed: bool,
}

/// Whether a state can be reached: no more ports are bound than there are,
/// and a failure names a port.
pub open spec fn reachable(s: StartupView) -> bool {
    s.bound <= s.ports.len() && (s.failed ==> s.bound < s.ports.len())
}

/// The state before anything is bound.
pub open spec fn start_of(ports: Seq<u16>) -> StartupView {
    StartupView { ports, bound: 0, failed: false }
}

/// What is to be done in the state `s`.
pub open spec fn step_of(s: StartupView) -> Step {
    if s.bound >= s.ports.len() {
        Step::Serve
    } else if s.failed {
        Step::Abort(s.ports[s.bound as int])
    } else {
        Step::Bind(s.ports[s.bound as int])
    }
}

/// The state after the port that was to be bound was bound (`ok`) or could
/// not be. Once all ports are bound, or one has failed, nothing changes any
/// more.
pub open spec fn after(s: StartupView, ok: bool) -> StartupView {
    if s.failed || s.bound >= s.ports.len() {
        s
    } else if ok {
        StartupView { bound: s.bound + 1, ..s }
    } else {
        StartupView { failed: true, ..s }
    }
}

/// The state after the reports `reports`, in order.
pub open spec fn after_all(s: StartupView, reports: Seq<bool>) -> StartupView
    decreases reports.len(),
{
    if reports.len() == 0 {
        s
    } else {
        after(after_all(s, reports.drop_last()), reports.last())
    }
}

/// A number in decimal digits.
pub open spec fn decimal(n: nat) -> Seq<char>
    decreases n,
{
    if n < 10 {
        seq![(48 + n) as u8 as char]
    } else {
        decimal(n / 10) + seq![(48 + n % 10) as u8 as char]
    }
}

/// The ports in decimal, with a comma and a space between each two.
pub open spec fn listed(ports: Seq<u16>) -> Seq<char>
    decreases ports.len(),
{
    if ports.len() == 0 {
        Seq::empty()
    } else if ports.len() == 1 {
        decimal(ports[0] as nat)
    } else {
        listed(ports.drop_last()) + seq![',', ' '] + decimal(ports.last() as nat)
    }
}

/// The line that says that serving has begun, and on which ports.
pub open spec fn announcement(ports: Seq<u16>) -> Seq<char> {
    "Server started on ports: "@ + seq!['['] + listed(ports) + seq![']']
}

impl View for Startup {
    type V = StartupView;

    closed spec fn view(&self) -> StartupView {
        StartupView { ports: self.ports@, bound: self.bound as nat, failed: self.failed }
    }
}

impl Startup {
    #[verifier::type_invariant]
    spec fn well_formed(self) -> bool {
        self.bound <= self.ports.len() && (self.failed ==> self.bound < self.ports.len())
    }

    /// The start of a server on `ports`: nothing is bound yet.
    pub fn new(ports: Vec<u16>) -> (startup: Startup)
        ensures
            startup@ == start_of(ports@),
    {
        Startup { ports, bound: 0, failed: false }
    }

    /// What is to be done next.
    pub fn step(&self) -> (step: Step)
        ensures
            step == step_of(self@),
            reachable(self@),
    {
        proof {
            use_type_invariant(self);
        }
        if self.bound >= self.ports.len() {
            Step::Serve
        } else if self.failed {
            Step::Abort(self.ports[self.bound])
        } else {
            Step::Bind(self.ports[self.bound])
        }
    }

    /// Takes the report on the port that was to be bound: bound (`ok`) or
    /// not.
    pub fn report(&mut self, ok: bool)
        ensures
            final(self)@ == after(old(self)@, ok),
    {
        proof {
            use_type_invariant(&*self);
        }
        if self.failed || self.bound >= self.ports.len() {
        } else if ok {
            self.bound = self.bound + 1;
        } else {
            self.failed = true;
        }
    }

    /// The ports, in order.
    pub fn ports(&self) -> (ports: &Vec<u16>)
        ensures
            ports@ == self@.ports,
    {
        &self.ports
    }
}

/// Appends `n` in decimal digits to `out`.
fn push_decimal(out: &mut Vec<char>, n: u16)
    ensures
        final(out)@ == old(out)@ + decimal(n as nat),
    decreases n,
{
    if n >= 10 {
        push_decimal(out, n / 10);
    }
    let digit: u8 = (n % 10) as u8;
    out.push((48 + digit) as char);
    proof {
        let d = seq![(48 + (n as nat) % 10) as u8 as char];
        if n >= 10 {
            assert(old(out)@ + decimal((n / 10) as nat) + d =~= old(out)@ + decimal(n as nat));
        } else {
            assert(old(out)@ + d =~= old(out)@ + decimal(n as nat));
        }
    }
}

/// The line that says that serving has begun, and on which ports.
pub fn announce(ports: &Vec<u16>) -> (line: String)
    ensures
        line@ == announcement(ports@),
{
    let mut out: Vec<char> = chars_of("Server started on ports: ");
    out.push('[');
    let mut k: usize = 0;
    while k < ports.len()
        invariant
            k <= ports.len(),
            out@ == "Server started on ports: "@ + seq!['['] + listed(ports@.take(k as int)),
        decreases ports.len() - k,
    {
        proof {
            let upto = ports@.take(k + 1);
            assert(upto.drop_last() =~= ports@.take(k as int));
            assert(upto.last() == ports@[k as int]);
        }
        if k > 0 {
            out.push(',');
            out.push(' ');
        }
        let ghost before = out@;
        push_decimal(&mut out, ports[k]);
        proof {
            let head = "Server started on ports: "@ + seq!['['];
            let part = listed(ports@.take(k as int));
            let number = decimal(ports@[k as int] as nat);
            if k > 0 {
                assert(head + part + seq![',', ' '] + number =~= head + (part + seq![',', ' ']
                    + number));
                assert(before =~= head + part + seq![',', ' ']);
            } else {
                assert(part =~= Seq::<char>::empty());
                assert(head + part + number =~= head + number);
            }
        }
        k += 1;
    }
    assert(ports@.take(ports@.len() as int) =~= ports@);
    out.push(']');
    string_of(&out)
}

/// All or nothing: the reports that lead to serving are those in which
/// every port was bound. After a failure no report leads there.
pub proof fn lemma_all_or_nothing(ports: Seq<u16>, reports: Seq<bool>)
    ensures
        reachable(after_all(start_of(ports), reports)),
        after_all(start_of(ports), reports).ports == ports,
        step_of(after_all(start_of(ports), reports)) == Step::Serve <==> reports.len()
            >= ports.len() && forall|i: int| 0 <= i < ports.len() ==> reports[i],
        !after_all(start_of(ports), reports).failed ==> after_all(start_of(ports), reports).bound
            == (if reports.len() <= ports.len() {
            reports.len()
        } else {
            ports.len()
        }) && forall|i: int| 0 <= i < reports.len() && i < ports.len() ==> reports[i],
        after_all(start_of(ports), reports).failed ==> exists|i: int|
            0 <= i < reports.len() && i < ports.len() && !reports[i],
    decreases reports.len(),
{
    if reports.len() > 0 {
        let init = reports.drop_last();
        lemma_all_or_nothing(ports, init);
        let s = after_all(start_of(ports), init);
        if s.failed {
            let i = choose|i: int| 0 <= i < init.len() && i < ports.len() && !init[i];
            assert(!reports[i]);
        } else {
            assert forall|i: int| 0 <= i < init.len() && i < ports.len() implies reports[i] by {
                assert(init[i] == reports[i]);
            }
            if s.bound < ports.len() && !reports.last() {
                assert(!reports[reports.len() - 1]);
            }
        }
    }
}

} // verus!
