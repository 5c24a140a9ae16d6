//! Port registry: a single shared optional port value with write-once-wins
//! semantics, and the URL the rest of the application addresses the backend
//! by. The first valid detection is authoritative; later offers are ignored.

use vstd::prelude::*;
use vstd::string::*;

use crate::scan::port_ok;

verus! {

/// Decimal digit as a character.
pub open spec fn digit_char(d: nat) -> char {
    if d == 0 {
        '0'
    } else if d == 1 {
        '1'
    } else if d == 2 {
        '2'
    } else if d == 3 {
        '3'
    } else if d == 4 {
        '4'
    } else if d == 5 {
        '5'
    } else if d == 6 {
        '6'
    } else if d == 7 {
        '7'
    } else if d == 8 {
        '8'
    } else {
        '9'
    }
}

/// Decimal rendering of a number, most significant digit first, no leading
/// zeros except for zero itself.
pub open spec fn dec_str(n: nat) -> Seq<char>
    decreases n,
{
    if n < 10 {
        seq![digit_char(n)]
    } else {
        dec_str(n / 10) + seq![digit_char(n % 10)]
    }
}

/// What a registry state answers to a URL query: the loopback address of the
/// discovered port, or the fixed default when none was ever discovered.
pub open spec fn url_of(port: Option<u16>) -> Seq<char> {
    match port {
        Some(p) => "http://127.0.0.1:"@ + dec_str(p as nat),
        None => "http://localhost:8002"@,
    }
}

/// One write-once step: an offered port lands only in an empty registry.
pub open spec fn offered(state: Option<u16>, p: u16) -> Option<u16> {
    match state {
        Some(_) => state,
        None => Some(p),
    }
}

/// Write-once-wins: of two ports offered in sequence to an empty registry,
/// the first stays in place, whether or not the two differ.
pub proof fn lemma_write_once(p1: u16, p2: u16)
    ensures
        offered(offered(None, p1), p2) == Some(p1),
{
}

/// An already-set registry ignores every later offer.
pub proof fn lemma_set_is_final(state: Option<u16>, p: u16)
    requires
        state is Some,
    ensures
        offered(state, p) == state,
{
}

fn push_digit(s: &mut String, d: u16)
    requires
        d < 10,
    ensures
        final(s)@ == old(s)@ + seq![digit_char(d as nat)],
{
    proof {
        reveal_strlit("0");
        reveal_strlit("1");
        reveal_strlit("2");
        reveal_strlit("3");
        reveal_strlit("4");
        reveal_strlit("5");
        reveal_strlit("6");
        reveal_strlit("7");
        reveal_strlit("8");
        reveal_strlit("9");
    }
    if d == 0 {
        s.append("0");
    } else if d == 1 {
        s.append("1");
    } else if d == 2 {
        s.append("2");
    } else if d == 3 {
        s.append("3");
    } else if d == 4 {
        s.append("4");
    } else if d == 5 {
        s.append("5");
    } else if d == 6 {
        s.append("6");
    } else if d == 7 {
        s.append("7");
    } else if d == 8 {
        s.append("8");
    } else {
        s.append("9");
    }
    proof {
        assert(s@ =~= old(s)@ + seq![digit_char(d as nat)]);
    }
}

/// Characters of the collected least-significant-first digits, read back
/// most significant first.
spec fn rev_chars(ds: Seq<u16>) -> Seq<char> {
    Seq::new(ds.len(), |i: int| digit_char(ds[ds.len() - 1 - i] as nat))
}

/// Appends the decimal rendering of `n` to `s`.
fn append_decimal(s: &mut String, n: u16)
    ensures
        final(s)@ == old(s)@ + dec_str(n as nat),
{
    let mut digits: Vec<u16> = Vec::new();
    let mut rest = n;
    while rest >= 10
        invariant
            dec_str(n as nat) =~= dec_str(rest as nat) + rev_chars(digits@),
            forall|t: int| 0 <= t < digits@.len() ==> digits@[t] < 10,
        decreases rest,
    {
        let d = rest % 10;
        proof {
            let ds = digits@;
            assert(rev_chars(ds + seq![d]) =~= seq![digit_char(d as nat)]
                + rev_chars(ds));
            assert(dec_str(rest as nat) == dec_str((rest / 10) as nat) + seq![
                digit_char((rest % 10) as nat),
            ]);
        }
        digits.push(d);
        rest = rest / 10;
    }
    push_digit(s, rest);
    let ghost lead = old(s)@ + seq![digit_char(rest as nat)];
    let mut k = digits.len();
    while k > 0
        invariant
            k <= digits@.len(),
            forall|t: int| 0 <= t < digits@.len() ==> digits@[t] < 10,
            s@ =~= lead + rev_chars(digits@).take(digits@.len() - k),
        decreases k,
    {
        let d = digits[k - 1];
        proof {
            assert(rev_chars(digits@)[digits@.len() - k] == digit_char(
                digits@[k - 1] as nat,
            ));
        }
        push_digit(s, d);
        k = k - 1;
        proof {
            assert(lead + rev_chars(digits@).take(digits@.len() - k) =~= (lead
                + rev_chars(digits@).take(digits@.len() - k - 1)) + seq![digit_char(
                digits@[k as int] as nat,
            )]);
        }
    }
    proof {
        assert(rev_chars(digits@).take(digits@.len() as int) =~= rev_chars(digits@));
        assert(s@ =~= old(s)@ + dec_str(n as nat));
    }
}

/// The shared optional port value. It starts empty, is written at most once,
/// and keeps the first valid detection for the rest of its lifetime.
pub struct PortRegistry {
    port: Option<u16>,
}

impl View for PortRegistry {
    type V = Option<u16>;

    closed spec fn view(&self) -> Option<u16> {
        self.port
    }
}

impl PortRegistry {
    /// A registry that has discovered nothing yet.
    pub fn new() -> (r: Self)
        ensures
            r@ is None,
    {
        PortRegistry { port: None }
    }

    /// Offers a discovered port. The first offer sticks; any later one is
    /// ignored, whatever its value.
    pub fn offer(&mut self, p: u16)
        requires
            port_ok(p as nat),
        ensures
            final(self)@ == offered(old(self)@, p),
    {
        if self.port.is_none() {
            self.port = Some(p);
        }
    }

    /// The discovered port, if any.
    pub fn get(&self) -> (r: Option<u16>)
        ensures
            r == self@,
    {
        self.port
    }

    /// The URL callers address the backend by: the loopback address of the
    /// discovered port, or the fixed default while none is known. Never
    /// blocks, never fails.
    pub fn query_url(&self) -> (r: String)
        ensures
            r@ == url_of(self@),
    {
        match self.port {
            Some(p) => {
                let mut s = String::from_str("http://127.0.0.1:");
                append_decimal(&mut s, p);
                s
            },
            None => String::from_str("http://localhost:8002"),
        }
    }
}

} // verus!
