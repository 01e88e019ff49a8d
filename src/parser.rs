use vstd::prelude::*;

verus! {

/// Whitespace as `char::is_whitespace` sees it (Unicode `White_Space`).
pub open spec fn is_space(c: char) -> bool {
    let u = c as u32;
    (0x09 <= u <= 0x0d) || u == 0x20 || u == 0x85 || u == 0xa0 || u == 0x1680 || (0x2000 <= u
        <= 0x200a) || u == 0x2028 || u == 0x2029 || u == 0x202f || u == 0x205f || u == 0x3000
}

pub open spec fn trim_start(s: Seq<char>) -> Seq<char>
    decreases s.len(),
{
    if s.len() > 0 && is_space(s[0]) {
        trim_start(s.drop_first())
    } else {
        s
    }
}

pub open spec fn trim_end(s: Seq<char>) -> Seq<char>
    decreases s.len(),
{
    if s.len() > 0 && is_space(s.last()) {
        trim_end(s.drop_last())
    } else {
        s
    }
}

/// `s` without leading and trailing whitespace.
pub open spec fn trim(s: Seq<char>) -> Seq<char> {
    trim_end(trim_start(s))
}

/// The pieces of `s` between occurrences of `d`, left to right; `s` without
/// any `d` is a single piece.
pub open spec fn split_on(s: Seq<char>, d: char) -> Seq<Seq<char>>
    decreases s.len(),
{
    if s.len() == 0 {
        seq![Seq::empty()]
    } else {
        let init = split_on(s.drop_last(), d);
        if s.last() == d {
            init.push(Seq::empty())
        } else {
            init.update(init.len() - 1, init.last().push(s.last()))
        }
    }
}

pub open spec fn is_digit(c: char) -> bool {
    '0' as u32 <= c as u32 <= '9' as u32
}

pub open spec fn digit_value(c: char) -> int {
    c as u32 - '0' as u32
}

/// The number that the decimal digits `s` denote.
pub open spec fn digits_value(s: Seq<char>) -> int
    decreases s.len(),
{
    if s.len() == 0 {
        0
    } else {
        digits_value(s.drop_last()) * 10 + digit_value(s.last())
    }
}

pub open spec fn all_digits(s: Seq<char>) -> bool {
    forall|i: int| 0 <= i < s.len() ==> is_digit(#[trigger] s[i])
}

/// A port number in decimal: an optional `+`, then one or more digits whose
/// value is at most 65535; anything else denotes no port.
pub open spec fn port_number(s: Seq<char>) -> Option<u16> {
    let ds = if s.len() > 0 && s[0] == '+' {
        s.drop_first()
    } else {
        s
    };
    if ds.len() > 0 && all_digits(ds) && digits_value(ds) <= u16::MAX {
        Some(digits_value(ds) as u16)
    } else {
        None
    }
}

proof fn lemma_digits_value_grows(s: Seq<char>, k: int)
    requires
        all_digits(s),
        0 <= k <= s.len(),
    ensures
        0 <= digits_value(s.take(k)) <= digits_value(s),
    decreases s.len(),
{
    if s.len() > 0 {
        assert(all_digits(s.drop_last()));
        if k == s.len() {
            assert(s.take(k) =~= s);
            lemma_digits_value_grows(s.drop_last(), k - 1);
        } else {
            assert(s.drop_last().take(k) =~= s.take(k));
            lemma_digits_value_grows(s.drop_last(), k);
        }
    }
}

/// The ports `start`, `start + 1`, ..., `end` in ascending order; none when
/// `start > end`.
pub open spec fn port_range(start: u16, end: u16) -> Seq<u16> {
    Seq::new(
        if start <= end {
            (end - start + 1) as nat
        } else {
            0
        },
        |i: int| (start + i) as u16,
    )
}

/// The ports that one comma-separated token names: `start:end` for an
/// inclusive range or a single number, whitespace around the token ignored.
/// `None` when the token follows neither form.
pub open spec fn token_ports(t: Seq<char>) -> Option<Seq<u16>> {
    let tt = trim(t);
    if tt.contains(':') {
        let parts = split_on(tt, ':');
        if parts.len() == 2 && port_number(parts[0]) is Some && port_number(parts[1]) is Some {
            Some(port_range(port_number(parts[0])->0, port_number(parts[1])->0))
        } else {
            None
        }
    } else if port_number(tt) is Some {
        Some(seq![port_number(tt)->0])
    } else {
        None
    }
}

/// The ports of the tokens `ts` in order, or the first malformed token
/// (trimmed).
pub open spec fn ports_of_tokens(ts: Seq<Seq<char>>) -> Result<Seq<u16>, Seq<char>>
    decreases ts.len(),
{
    if ts.len() == 0 {
        Ok(Seq::empty())
    } else {
        match ports_of_tokens(ts.drop_last()) {
            Ok(ps) => match token_ports(ts.last()) {
                Some(q) => Ok(ps + q),
                None => Err(trim(ts.last())),
            },
            Err(e) => Err(e),
        }
    }
}

/// What a port specification denotes: the ports of its comma-separated
/// tokens in input order, duplicates kept, or the first malformed token.
pub open spec fn port_spec(s: Seq<char>) -> Result<Seq<u16>, Seq<char>> {
    ports_of_tokens(split_on(s, ','))
}

proof fn lemma_error_persists(ts: Seq<Seq<char>>, k: int)
    requires
        0 <= k <= ts.len(),
        ports_of_tokens(ts.take(k)) is Err,
    ensures
        ports_of_tokens(ts) == ports_of_tokens(ts.take(k)),
    decreases ts.len(),
{
    if k == ts.len() {
        assert(ts.take(k) =~= ts);
    } else {
        assert(ts.drop_last().take(k) =~= ts.take(k));
        lemma_error_persists(ts.drop_last(), k);
    }
}

fn is_space_char(c: char) -> (r: bool)
    ensures
        r == is_space(c),
{
    let u = c as u32;
    (0x09 <= u && u <= 0x0d) || u == 0x20 || u == 0x85 || u == 0xa0 || u == 0x1680 || (0x2000
        <= u && u <= 0x200a) || u == 0x2028 || u == 0x2029 || u == 0x202f || u == 0x205f || u
        == 0x3000
}

/// The bounds of `chars[lo..hi]` without its leading and trailing whitespace.
fn trim_range(chars: &Vec<char>, lo: usize, hi: usize) -> (r: (usize, usize))
    requires
        lo <= hi <= chars.len(),
    ensures
        lo <= r.0 <= r.1 <= hi,
        chars@.subrange(r.0 as int, r.1 as int) == trim(chars@.subrange(lo as int, hi as int)),
{
    let mut a = lo;
    while a < hi && is_space_char(chars[a])
        invariant
            lo <= a <= hi <= chars.len(),
            trim_start(chars@.subrange(lo as int, hi as int)) == trim_start(
                chars@.subrange(a as int, hi as int),
            ),
        decreases hi - a,
    {
        assert(chars@.subrange(a as int, hi as int).drop_first() =~= chars@.subrange(
            a + 1,
            hi as int,
        ));
        a = a + 1;
    }
    let mut b = hi;
    while b > a && is_space_char(chars[b - 1])
        invariant
            lo <= a <= b <= hi <= chars.len(),
            trim_start(chars@.subrange(lo as int, hi as int)) == chars@.subrange(
                a as int,
                hi as int,
            ),
            trim(chars@.subrange(lo as int, hi as int)) == trim_end(
                chars@.subrange(a as int, b as int),
            ),
        decreases b - a,
    {
        assert(chars@.subrange(a as int, b as int).drop_last() =~= chars@.subrange(
            a as int,
            b - 1,
        ));
        b = b - 1;
    }
    (a, b)
}

/// Whether `d` occurs in `chars[lo..hi]`.
fn has_char(chars: &Vec<char>, lo: usize, hi: usize, d: char) -> (r: bool)
    requires
        lo <= hi <= chars.len(),
    ensures
        r == chars@.subrange(lo as int, hi as int).contains(d),
{
    let mut i = lo;
    while i < hi
        invariant
            lo <= i <= hi <= chars.len(),
            forall|j: int| lo <= j < i ==> chars@[j] != d,
        decreases hi - i,
    {
        if chars[i] == d {
            assert(chars@.subrange(lo as int, hi as int)[i - lo] == d);
            return true;
        }
        i = i + 1;
    }
    assert forall|j: int| 0 <= j < hi - lo implies chars@.subrange(lo as int, hi as int)[j]
        != d by {
        assert(chars@[lo + j] != d);
    }
    false
}

/// The bounds of the pieces of `chars[lo..hi]` between occurrences of `d`.
fn split_ranges(chars: &Vec<char>, lo: usize, hi: usize, d: char) -> (r: Vec<(usize, usize)>)
    requires
        lo <= hi <= chars.len(),
    ensures
        r.len() == split_on(chars@.subrange(lo as int, hi as int), d).len(),
        forall|j: int|
            0 <= j < r.len() ==> lo <= (#[trigger] r[j]).0 <= r[j].1 <= hi && chars@.subrange(
                r[j].0 as int,
                r[j].1 as int,
            ) == split_on(chars@.subrange(lo as int, hi as int), d)[j],
{
    let mut r: Vec<(usize, usize)> = Vec::new();
    let mut start = lo;
    let mut i = lo;
    assert(chars@.subrange(lo as int, lo as int) =~= Seq::<char>::empty());
    while i < hi
        invariant
            lo <= start <= i <= hi <= chars.len(),
            split_on(chars@.subrange(lo as int, i as int), d).len() == r.len() + 1,
            split_on(chars@.subrange(lo as int, i as int), d)[r.len() as int]
                == chars@.subrange(start as int, i as int),
            forall|j: int|
                0 <= j < r.len() ==> lo <= (#[trigger] r[j]).0 <= r[j].1 <= hi
                    && chars@.subrange(r[j].0 as int, r[j].1 as int) == split_on(
                    chars@.subrange(lo as int, i as int),
                    d,
                )[j],
        decreases hi - i,
    {
        let ghost prev = chars@.subrange(lo as int, i as int);
        let ghost next = chars@.subrange(lo as int, i + 1);
        assert(next.drop_last() =~= prev);
        assert(next.last() == chars@[i as int]);
        if chars[i] == d {
            r.push((start, i));
            start = i + 1;
            assert(chars@.subrange(start as int, start as int) =~= Seq::<char>::empty());
        } else {
            assert(chars@.subrange(start as int, i as int).push(chars@[i as int])
                =~= chars@.subrange(start as int, i + 1));
        }
        i = i + 1;
    }
    r.push((start, hi));
    r
}

/// Appends `port_range(start, end)` to `ports`.
fn push_range(ports: &mut Vec<u16>, start: u16, end: u16)
    ensures
        final(ports)@ == old(ports)@ + port_range(start, end),
{
    if start > end {
        assert(port_range(start, end) =~= Seq::<u16>::empty());
        assert(old(ports)@ + port_range(start, end) =~= old(ports)@);
        return;
    }
    let ghost base = ports@;
    let mut p: u32 = start as u32;
    while p <= end as u32
        invariant
            start as u32 <= p <= end as u32 + 1,
            start <= end,
            ports@ =~= base + Seq::new((p - start) as nat, |i: int| (start + i) as u16),
        decreases end as u32 + 1 - p,
    {
        ports.push(p as u16);
        p = p + 1;
    }
    assert(port_range(start, end) =~= Seq::new((p - start) as nat, |i: int| (start + i) as u16));
}

/// The characters of `s`, one per element.
fn chars_of(s: &str) -> (r: Vec<char>)
    ensures
        r@ == s@,
{
    let mut r: Vec<char> = Vec::new();
    for c in it: s.chars()
        invariant
            r@ == it.seq().take(it.index() as int),
    {
        r.push(c);
    }
    r
}

/// Reads the port number written in `chars[lo..hi]`.
fn parse_port_number(chars: &Vec<char>, lo: usize, hi: usize) -> (r: Option<u16>)
    requires
        lo <= hi <= chars.len(),
    ensures
        r == port_number(chars@.subrange(lo as int, hi as int)),
{
    let ghost s = chars@.subrange(lo as int, hi as int);
    let mut start = lo;
    if start < hi && chars[start] == '+' {
        start = start + 1;
    }
    let ghost ds = chars@.subrange(start as int, hi as int);
    assert(ds =~= (if s.len() > 0 && s[0] == '+' { s.drop_first() } else { s }));
    if start == hi {
        return None;
    }
    let mut acc: u32 = 0;
    let mut i = start;
    while i < hi
        invariant
            lo <= start <= i <= hi <= chars.len(),
            ds == chars@.subrange(start as int, hi as int),
            s == chars@.subrange(lo as int, hi as int),
            ds == (if s.len() > 0 && s[0] == '+' { s.drop_first() } else { s }),
            ds.len() > 0,
            all_digits(ds.take(i - start)),
            acc as int == digits_value(ds.take(i - start)),
            acc <= u16::MAX,
        decreases hi - i,
    {
        let c = chars[i];
        let ghost k = i - start;
        assert(ds[k] == c);
        let cu = c as u32;
        if !(48 <= cu && cu <= 57) {
            assert(!is_digit(ds[k]));
            assert(!all_digits(ds));
            return None;
        }
        let d = cu - 48;
        assert(ds.take(k + 1).drop_last() =~= ds.take(k));
        assert(all_digits(ds.take(k + 1)));
        let next = acc * 10 + d;
        if next > 65535 {
            proof {
                if all_digits(ds) {
                    lemma_digits_value_grows(ds, k + 1);
                }
            }
            return None;
        }
        acc = next;
        i = i + 1;
    }
    assert(ds.take(i - start) =~= ds);
    Some(acc as u16)
}

/// A port specification that does not follow the grammar; `token` is the
/// first offending comma-separated token, without surrounding whitespace.
pub struct InvalidPortSpec {
    pub token: String,
}

/// Appends the ports that the token `chars[lo..hi]` names to `ports`;
/// `false`, when the token is malformed.
fn push_token_ports(chars: &Vec<char>, lo: usize, hi: usize, ports: &mut Vec<u16>) -> (r: bool)
    requires
        lo <= hi <= chars.len(),
    ensures
        match token_ports(chars@.subrange(lo as int, hi as int)) {
            Some(q) => r && final(ports)@ == old(ports)@ + q,
            None => !r,
        },
{
    let (a, b) = trim_range(chars, lo, hi);
    let ghost tt = chars@.subrange(a as int, b as int);
    if has_char(chars, a, b, ':') {
        let parts = split_ranges(chars, a, b, ':');
        if parts.len() != 2 {
            return false;
        }
        let (s0, e0) = parts[0];
        let (s1, e1) = parts[1];
        assert(chars@.subrange(s0 as int, e0 as int) == split_on(tt, ':')[0]);
        assert(chars@.subrange(s1 as int, e1 as int) == split_on(tt, ':')[1]);
        match (parse_port_number(chars, s0, e0), parse_port_number(chars, s1, e1)) {
            (Some(start), Some(end)) => {
                push_range(ports, start, end);
                true
            },
            _ => false,
        }
    } else {
        match parse_port_number(chars, a, b) {
            Some(p) => {
                ports.push(p);
                true
            },
            None => false,
        }
    }
}

/// Expands a port specification such as `"20:25,31, 45:50"` into its ports:
/// the comma-separated tokens in input order, each either a single port or an
/// inclusive `start:end` range (ascending; empty when `start > end`), with
/// duplicates kept. Fails on the first token that is neither, naming it.
pub fn parse_ports(port_arg: &str) -> (r: Result<Vec<u16>, InvalidPortSpec>)
    ensures
        parses_as(port_arg@, r),
{
    let chars = chars_of(port_arg);
    let n = chars.len();
    let pieces = split_ranges(&chars, 0, n, ',');
    let ghost ts = split_on(chars@.subrange(0, n as int), ',');
    assert(chars@.subrange(0, n as int) =~= port_arg@);
    let mut ports: Vec<u16> = Vec::new();
    let mut k: usize = 0;
    assert(ts.take(0) =~= Seq::<Seq<char>>::empty());
    while k < pieces.len()
        invariant
            0 <= k <= pieces.len(),
            n == chars.len(),
            chars@ == port_arg@,
            ts == split_on(port_arg@, ','),
            pieces.len() == ts.len(),
            forall|j: int|
                0 <= j < pieces.len() ==> 0 <= (#[trigger] pieces[j]).0 <= pieces[j].1 <= n
                    && chars@.subrange(pieces[j].0 as int, pieces[j].1 as int) == ts[j],
            ports_of_tokens(ts.take(k as int)) == Ok::<Seq<u16>, Seq<char>>(ports@),
        decreases pieces.len() - k,
    {
        let (lo, hi) = pieces[k];
        assert(ts.take(k + 1).drop_last() =~= ts.take(k as int));
        assert(ts.take(k + 1).last() == ts[k as int]);
        if !push_token_ports(&chars, lo, hi, &mut ports) {
            let (a, b) = trim_range(&chars, lo, hi);
            let token = port_arg.substring_char(a, b).to_owned();
            proof {
                lemma_error_persists(ts, k + 1);
            }
            return Err(InvalidPortSpec { token });
        }
        k = k + 1;
    }
    assert(ts.take(k as int) =~= ts);
    Ok(ports)
}

/// What `parse_ports` returns for `s`, in terms of its contract.
pub open spec fn parses_as(s: Seq<char>, r: Result<Vec<u16>, InvalidPortSpec>) -> bool {
    match port_spec(s) {
        Ok(ps) => r is Ok && r->Ok_0@ == ps,
        Err(t) => r is Err && r->Err_0.token@ == t,
    }
}

/// Parsing is deterministic: two results of `parse_ports` on the same input
/// agree, on success in every port and its position, on failure in the
/// offending token.
pub proof fn parse_ports_deterministic(
    s: Seq<char>,
    r1: Result<Vec<u16>, InvalidPortSpec>,
    r2: Result<Vec<u16>, InvalidPortSpec>,
)
    requires
        parses_as(s, r1),
        parses_as(s, r2),
    ensures
        r1 is Ok <==> r2 is Ok,
        r1 is Ok ==> r1->Ok_0@ == r2->Ok_0@,
        r1 is Err ==> r1->Err_0.token@ == r2->Err_0.token@,
{
}

/// `s` without leading and trailing whitespace.
pub(crate) fn trimmed(s: &str) -> (r: String)
    ensures
        r@ == trim(s@),
{
    let chars = chars_of(s);
    let (a, b) = trim_range(&chars, 0, chars.len());
    assert(chars@.subrange(0, chars.len() as int) =~= s@);
    s.substring_char(a, b).to_owned()
}

/// The settings of one run of the scanner.
pub struct Args {
    /// The host to scan.
    pub target: String,
    /// How much the run logs: `none`, `low` or `high`.
    pub verbosity: String,
    /// The number of port tasks that run at once.
    pub threads: usize,
    /// The ports to scan, as a port specification (`1:1024`, `80,443`, ...).
    pub port_range: String,
    /// How long a connection attempt may take, in milliseconds.
    pub timeout: u64,
    /// Whether open ports are sent an HTTP request and their answer kept.
    pub probe: bool,
}

/// How much a run logs.
#[derive(Clone, Copy, Debug, PartialEq, Eq, Structural)]
pub enum Verbosity {
    /// Errors only.
    Quiet,
    /// Errors and progress.
    Low,
    /// Everything.
    High,
}

/// The level a verbosity name selects: `low` and `high` select theirs, any
/// other name (`none` among them) the quietest.
pub open spec fn verbosity_of(name: Seq<char>) -> Verbosity {
    if name == "low"@ {
        Verbosity::Low
    } else if name == "high"@ {
        Verbosity::High
    } else {
        Verbosity::Quiet
    }
}

impl Args {
    /// The logging level that `verbosity` names.
    pub fn verbosity_level(&self) -> (r: Verbosity)
        ensures
            r == verbosity_of(self.verbosity@),
    {
        let low = String::from_str("low");
        let high = String::from_str("high");
        if self.verbosity == low {
            Verbosity::Low
        } else if self.verbosity == high {
            Verbosity::High
        } else {
            Verbosity::Quiet
        }
    }
}

} // verus!
