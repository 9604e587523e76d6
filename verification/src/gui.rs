//! The desktop launcher's settings and the log it shows: where the server
//! listens, and a ring of the last log lines.
use vstd::prelude::*;

use crate::text::{decimal, push_decimal, push_str, string_of, to_chars, views};

verus! {

/// The value of a string of decimal digits.
pub open spec fn digits_value(s: Seq<char>) -> nat
    decreases s.len(),
{
    if s.len() == 0 {
        0
    } else {
        digits_value(s.drop_last()) * 10 + ((s.last() as u32) - ('0' as u32)) as nat
    }
}

/// Every character is a decimal digit.
pub open spec fn all_digits(s: Seq<char>) -> bool {
    forall|i: int| 0 <= i < s.len() ==> '0' <= #[trigger] s[i] <= '9'
}

/// What `str::parse` gives for an unsigned integer type whose largest value
/// is `max`: the value of the digits after an optional `+`, when there is at
/// least one digit, nothing else, and the value fits.
pub open spec fn parse_unsigned(s: Seq<char>, max: nat) -> Option<nat> {
    let d = if s.len() > 0 && s[0] == '+' {
        s.drop_first()
    } else {
        s
    };
    if d.len() > 0 && all_digits(d) && digits_value(d) <= max {
        Some(digits_value(d))
    } else {
        None
    }
}

proof fn lemma_digits_monotone(s: Seq<char>, i: int)
    requires
        0 <= i <= s.len(),
        all_digits(s),
    ensures
        digits_value(s.take(i)) <= digits_value(s),
    decreases s.len() - i,
{
    if i < s.len() {
        lemma_digits_monotone(s, i + 1);
        assert(s.take(i + 1).drop_last() =~= s.take(i));
        assert('0' <= s[i] <= '9');
    } else {
        assert(s.take(i) =~= s);
    }
}

/// Parses an unsigned decimal no larger than `max` (see `parse_unsigned`).
pub fn parse_unsigned_exec(s: &str, max: u64) -> (r: Option<u64>)
    ensures
        match r {
            Some(v) => parse_unsigned(s@, max as nat) == Some(v as nat),
            None => parse_unsigned(s@, max as nat) is None,
        },
{
    let c = to_chars(s);
    let start: usize = if c.len() > 0 && c[0] == '+' {
        1
    } else {
        0
    };
    let ghost d = if c@.len() > 0 && c@[0] == '+' {
        c@.drop_first()
    } else {
        c@
    };
    assert(d =~= c@.skip(start as int));
    if start >= c.len() {
        return None;
    }
    let mut v: u64 = 0;
    let mut i: usize = start;
    while i < c.len()
        invariant
            start <= i <= c@.len(),
            c@ == s@,
            d == c@.skip(start as int),
            d == (if s@.len() > 0 && s@[0] == '+' {
                s@.drop_first()
            } else {
                s@
            }),
            all_digits(d.take(i - start)),
            v as nat == digits_value(d.take(i - start)),
            v <= max,
        decreases c@.len() - i,
    {
        let ch = c[i];
        assert(d[i - start] == ch);
        if ch < '0' || ch > '9' {
            assert(!('0' <= d[i - start] <= '9'));
            assert(!all_digits(d));
            return None;
        }
        let digit = (ch as u32 - '0' as u32) as u64;
        assert(d.take(i + 1 - start).drop_last() =~= d.take(i - start));
        assert(all_digits(d.take(i + 1 - start)));
        assert(digits_value(d.take(i + 1 - start)) == v * 10 + digit);
        match v.checked_mul(10) {
            None => {
                proof {
                    if all_digits(d) {
                        lemma_digits_monotone(d, i + 1 - start);
                        assert(digits_value(d) >= v * 10);
                    }
                }
                return None;
            },
            Some(t) => match t.checked_add(digit) {
                None => {
                    proof {
                        if all_digits(d) {
                            lemma_digits_monotone(d, i + 1 - start);
                        }
                    }
                    return None;
                },
                Some(n) => {
                    if n > max {
                        proof {
                            if all_digits(d) {
                                lemma_digits_monotone(d, i + 1 - start);
                            }
                        }
                        return None;
                    }
                    v = n;
                },
            },
        }
        i = i + 1;
    }
    assert(d.take(i - start) =~= d);
    Some(v)
}

/// The launcher's settings, as the user typed them.
#[derive(Clone, Debug, PartialEq)]
pub struct Settings {
    pub ip_addr: String,
    pub port: String,
    pub roam_path: String,
}

impl Default for Settings {
    fn default() -> (r: Settings)
        ensures
            r.ip_addr@ == "localhost"@,
            r.port@ == "5000"@,
            r.roam_path@ == ""@,
    {
        Settings {
            ip_addr: string_of(to_chars("localhost").as_slice()),
            port: string_of(to_chars("5000").as_slice()),
            roam_path: string_of(to_chars("").as_slice()),
        }
    }
}

/// The port setting is not a number that fits.
#[derive(Clone, Debug, PartialEq)]
pub struct InvalidPort;

/// The launcher.
pub struct OrgRoamersGUI {
    pub settings: Settings,
}

impl OrgRoamersGUI {
    /// The port to listen on.
    pub fn port(&self) -> (r: Result<u16, InvalidPort>)
        ensures
            match r {
                Ok(p) => parse_unsigned(self.settings.port@, 65535) == Some(p as nat),
                Err(_) => parse_unsigned(self.settings.port@, 65535) is None,
            },
    {
        match parse_unsigned_exec(self.settings.port.as_str(), 65535) {
            Some(v) => Ok(v as u16),
            None => Err(InvalidPort),
        }
    }

    /// The address to listen on.
    pub fn host(&self) -> (r: &str)
        ensures
            r@ == self.settings.ip_addr@,
    {
        self.settings.ip_addr.as_str()
    }

    /// The address of the server as an http url.
    pub fn url_with_protocol(&self) -> (r: Result<String, InvalidPort>)
        ensures
            match r {
                Ok(u) => exists|p: nat|
                    parse_unsigned(self.settings.port@, usize::MAX as nat) == Some(p) && u@
                        == "http://"@ + self.settings.ip_addr@ + ":"@ + decimal(p),
                Err(_) => parse_unsigned(self.settings.port@, usize::MAX as nat) is None,
            },
    {
        match parse_unsigned_exec(self.settings.port.as_str(), usize::MAX as u64) {
            Some(p) => {
                let mut u = String::new();
                push_str(&mut u, "http://");
                push_str(&mut u, self.settings.ip_addr.as_str());
                push_str(&mut u, ":");
                push_decimal(&mut u, p);
                Ok(u)
            },
            None => Err(InvalidPort),
        }
    }
}

/// The last `N` pieces written to the log, in a ring.
pub struct LogBuffer<const N: usize> {
    buf: Vec<String>,
    head: usize,
}

impl<const N: usize> LogBuffer<N> {
    /// The ring holds `N` pieces and the next write goes to `head`.
    pub closed spec fn wf(&self) -> bool {
        self.buf@.len() == N && self.head < N
    }

    /// The pieces of the ring, slot by slot.
    pub closed spec fn slots(&self) -> Seq<Seq<char>> {
        views(self.buf@)
    }

    /// The slot the next write goes to.
    pub closed spec fn next_slot(&self) -> nat {
        self.head as nat
    }

    /// An empty ring of `N` slots.
    pub fn new() -> (r: LogBuffer<N>)
        requires
            N > 0,
        ensures
            r.wf(),
            r.next_slot() == 0,
            r.slots() == Seq::new(N as nat, |i: int| Seq::<char>::empty()),
    {
        let mut buf: Vec<String> = Vec::new();
        let mut i: usize = 0;
        while i < N
            invariant
                0 <= i <= N,
                views(buf@) == Seq::new(i as nat, |k: int| Seq::<char>::empty()),
            decreases N - i,
        {
            let ghost before = buf@;
            let e = String::new();
            buf.push(e);
            assert(views(buf@) =~= views(before).push(e@));
            assert(views(buf@) =~= Seq::new((i + 1) as nat, |k: int| Seq::<char>::empty()));
            i = i + 1;
        }
        LogBuffer { buf, head: 0 }
    }

    /// Writes a piece into the next slot, replacing what it held.
    pub fn write(&mut self, s: &str)
        requires
            old(self).wf(),
        ensures
            final(self).wf(),
            final(self).slots() == old(self).slots().update(old(self).next_slot() as int, s@),
            final(self).next_slot() == (old(self).next_slot() + 1) % (N as nat),
    {
        let h = self.head;
        self.buf.set(h, string_of(to_chars(s).as_slice()));
        assert(views(self.buf@) =~= old(self).slots().update(h as int, s@));
        self.head = (h + 1) % N;
    }

    /// The log: the slots from the next one up to the one before the last,
    /// then all slots from the first.
    pub fn get_logs(&self) -> (r: String)
        requires
            self.wf(),
        ensures
            r@ == crate::org::concat(self.slots().subrange(self.next_slot() as int, N - 1))
                + crate::org::concat(self.slots()),
    {
        let mut r = String::new();
        let mut i: usize = self.head;
        let ghost a = self.slots().subrange(self.head as int, N - 1);
        if self.head < N - 1 {
            while i < N - 1
                invariant
                    self.wf(),
                    self.head <= i <= N - 1,
                    a == self.slots().subrange(self.head as int, N - 1),
                    r@ == crate::org::concat(a.take(i - self.head)),
                decreases N - 1 - i,
            {
                assert(a.take(i + 1 - self.head).drop_last() =~= a.take(i - self.head));
                push_str(&mut r, self.buf[i].as_str());
                i = i + 1;
            }
            assert(a.take(i - self.head) =~= a);
        } else {
            assert(a =~= Seq::<Seq<char>>::empty());
        }
        let ghost mid = r@;
        let mut j: usize = 0;
        while j < N
            invariant
                self.wf(),
                0 <= j <= N,
                r@ == mid + crate::org::concat(self.slots().take(j as int)),
            decreases N - j,
        {
            assert(self.slots().take(j + 1).drop_last() =~= self.slots().take(j as int));
            push_str(&mut r, self.buf[j].as_str());
            j = j + 1;
        }
        assert(self.slots().take(j as int) =~= self.slots());
        r
    }
}

} // verus!
