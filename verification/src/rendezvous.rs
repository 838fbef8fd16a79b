//! Parsing of the agent's rendezvous file.
//!
//! GnuPG advertises the extra socket by writing a small file in one of two
//! layouts.  The Assuan layout is a decimal port, optional surrounding
//! whitespace, then exactly 16 raw nonce bytes at end of file.  The Cygwin
//! layout begins with the literal `!<socket >` and continues with
//! `<port> s <8 hex>-<8 hex>-<8 hex>-<8 hex>x` and a NUL terminator, the
//! 32 lowercase hex digits spelling the 16 nonce bytes in source order.
//! Both parsers are specified byte-exactly and proved against round-trip
//! laws below.

use vstd::prelude::*;

use crate::util::BridgeError;
use crate::util::report_data_err;

verus! {

/// A parsed rendezvous file: the agent's local TCP port and the 16-byte
/// nonce a client must replay immediately after connecting.
#[derive(Debug)]
pub struct AgentEndpoint {
    pub port: u16,
    pub nonce: Vec<u8>,
}

impl AgentEndpoint {
    pub open spec fn wf(&self) -> bool {
        self.nonce@.len() == 16
    }

    /// An independent copy, byte for byte.
    pub fn duplicate(&self) -> (r: AgentEndpoint)
        ensures
            r.port == self.port,
            r.nonce@ == self.nonce@,
    {
        let mut nonce: Vec<u8> = Vec::new();
        let n: usize = self.nonce.len();
        let mut i: usize = 0;
        while i < n
            invariant
                i <= n,
                n == self.nonce@.len(),
                nonce@ == self.nonce@.take(i as int),
            decreases n - i,
        {
            nonce.push(self.nonce[i]);
            proof {
                assert(nonce@ =~= self.nonce@.take(i + 1));
            }
            i = i + 1;
        }
        proof {
            assert(self.nonce@.take(n as int) =~= self.nonce@);
        }
        AgentEndpoint { port: self.port, nonce }
    }
}

// ---------------------------------------------------------------------------
// Byte classes and decimal numbers
// ---------------------------------------------------------------------------

pub open spec fn is_ascii_ws(b: u8) -> bool {
    b == 32 || b == 9 || b == 10 || b == 13 || b == 11 || b == 12
}

pub open spec fn is_ascii_digit(b: u8) -> bool {
    48 <= b && b <= 57
}

pub open spec fn all_digits(s: Seq<u8>) -> bool {
    forall|i: int| 0 <= i < s.len() ==> is_ascii_digit(s[i])
}

/// The value of a string of decimal digits, most significant first.
pub open spec fn dec_val(s: Seq<u8>) -> int
    decreases s.len(),
{
    if s.len() == 0 {
        0
    } else {
        dec_val(s.drop_last()) * 10 + (s.last() - 48)
    }
}

proof fn lemma_dec_val_nonneg(s: Seq<u8>)
    requires
        all_digits(s),
    ensures
        dec_val(s) >= 0,
    decreases s.len(),
{
    if s.len() > 0 {
        assert(forall|i: int| 0 <= i < s.drop_last().len() ==> s.drop_last()[i] == s[i]);
        lemma_dec_val_nonneg(s.drop_last());
    }
}

/// A prefix of a digit string never exceeds the whole string's value.
proof fn lemma_dec_val_prefix(s: Seq<u8>, i: int)
    requires
        all_digits(s),
        0 <= i <= s.len(),
    ensures
        0 <= dec_val(s.take(i)) <= dec_val(s),
    decreases s.len() - i,
{
    assert(forall|j: int| 0 <= j < s.take(i).len() ==> s.take(i)[j] == s[j]);
    if i == s.len() {
        assert(s.take(i) =~= s);
        lemma_dec_val_nonneg(s);
    } else {
        lemma_dec_val_prefix(s, i + 1);
        assert(s.take(i + 1).drop_last() =~= s.take(i));
        assert(s.take(i + 1).last() == s[i]);
        lemma_dec_val_nonneg(s.take(i));
        assert(dec_val(s.take(i + 1)) == dec_val(s.take(i)) * 10 + (s[i] - 48));
    }
}

// ---------------------------------------------------------------------------
// Whitespace trimming
// ---------------------------------------------------------------------------

pub open spec fn trim_start(s: Seq<u8>) -> Seq<u8>
    decreases s.len(),
{
    if s.len() > 0 && is_ascii_ws(s[0]) {
        trim_start(s.drop_first())
    } else {
        s
    }
}

pub open spec fn trim_end(s: Seq<u8>) -> Seq<u8>
    decreases s.len(),
{
    if s.len() > 0 && is_ascii_ws(s.last()) {
        trim_end(s.drop_last())
    } else {
        s
    }
}

pub open spec fn trim_ws(s: Seq<u8>) -> Seq<u8> {
    trim_end(trim_start(s))
}

// ---------------------------------------------------------------------------
// The Assuan layout
// ---------------------------------------------------------------------------

/// The digit region of an Assuan file: everything before the 16 nonce
/// bytes, with surrounding whitespace removed.
pub open spec fn assuan_port_digits(s: Seq<u8>) -> Seq<u8> {
    trim_ws(s.take(s.len() - 16))
}

pub open spec fn assuan_ok(s: Seq<u8>) -> bool {
    &&& s.len() >= 17
    &&& assuan_port_digits(s).len() >= 1
    &&& all_digits(assuan_port_digits(s))
    &&& 1 <= dec_val(assuan_port_digits(s)) <= 65535
}

pub open spec fn assuan_port(s: Seq<u8>) -> int {
    dec_val(assuan_port_digits(s))
}

pub open spec fn assuan_nonce(s: Seq<u8>) -> Seq<u8> {
    s.subrange(s.len() - 16, s.len() as int)
}

// ---------------------------------------------------------------------------
// The Cygwin layout
// ---------------------------------------------------------------------------

/// The ten bytes of the literal `!<socket >` that open a Cygwin-layout file.
pub open spec fn cygwin_prefix() -> Seq<u8> {
    seq![33u8, 60u8, 115u8, 111u8, 99u8, 107u8, 101u8, 116u8, 32u8, 62u8]
}

pub open spec fn has_cygwin_prefix(s: Seq<u8>) -> bool {
    s.len() >= 10 && s.take(10) == cygwin_prefix()
}

/// Index of the first space in `s`, or `s.len()` if there is none.
pub open spec fn space_index(s: Seq<u8>) -> int
    decreases s.len(),
{
    if s.len() == 0 {
        0
    } else if s[0] == 32 {
        0
    } else {
        1 + space_index(s.drop_first())
    }
}

pub proof fn lemma_space_index(s: Seq<u8>)
    ensures
        0 <= space_index(s) <= s.len(),
        space_index(s) < s.len() ==> s[space_index(s)] == 32,
        forall|j: int| 0 <= j < space_index(s) ==> s[j] != 32,
    decreases s.len(),
{
    if s.len() == 0 {
    } else if s[0] == 32 {
    } else {
        let t = s.drop_first();
        lemma_space_index(t);
        assert forall|j: int| 0 <= j < space_index(s) implies s[j] != 32 by {
            if j > 0 {
                assert(t[j - 1] != 32);
                assert(s[j] == t[j - 1]);
            }
        }
        if space_index(s) < s.len() {
            assert(s[space_index(s)] == t[space_index(t)]);
        }
    }
}

/// The first space is wherever a space first stands.
pub proof fn lemma_space_index_is(s: Seq<u8>, i: int)
    requires
        0 <= i < s.len(),
        s[i] == 32,
        forall|j: int| 0 <= j < i ==> s[j] != 32,
    ensures
        space_index(s) == i,
{
    lemma_space_index(s);
    if space_index(s) < i {
        assert(s[space_index(s)] != 32);
    }
    if space_index(s) > i {
        assert(s[i] != 32);
    }
}

pub open spec fn is_lower_hex_digit(b: u8) -> bool {
    is_ascii_digit(b) || (97 <= b && b <= 102)
}

pub open spec fn hex_digit_val(b: u8) -> int {
    if is_ascii_digit(b) {
        b - 48
    } else {
        b - 87
    }
}

/// Position, within the body after the `!<socket >` prefix, of the `k`-th of
/// the 32 hex digits, when the port took `d` bytes: the digits stand in four
/// groups of eight, one separator byte after each group.
pub open spec fn cyg_hex_pos(d: int, k: int) -> int {
    d + 3 + 9 * (k / 8) + (k % 8)
}

/// The `j`-th nonce byte spelled by the body's hex digits, two digits per
/// byte, in source order.
pub open spec fn cyg_nonce_byte(b: Seq<u8>, j: int) -> u8 {
    let d = space_index(b);
    (hex_digit_val(b[cyg_hex_pos(d, 2 * j)]) * 16 + hex_digit_val(b[cyg_hex_pos(d, 2 * j + 1)])) as u8
}

/// Well-formedness of the body after the prefix: `<port> s ` then four
/// groups of eight lowercase hex digits, the groups separated by `-`, `-`,
/// `-` and closed by `x`, then the NUL terminator.
pub open spec fn cygwin_body_ok(b: Seq<u8>) -> bool {
    let d = space_index(b);
    &&& 1 <= d < b.len()
    &&& all_digits(b.take(d))
    &&& 1 <= dec_val(b.take(d)) <= 65535
    &&& b.len() >= d + 40
    &&& b[d + 1] == 115 && b[d + 2] == 32
    &&& (forall|k: int| 0 <= k < 32 ==> is_lower_hex_digit(#[trigger] b[cyg_hex_pos(d, k)]))
    &&& b[d + 11] == 45 && b[d + 20] == 45 && b[d + 29] == 45
    &&& b[d + 38] == 120
    &&& b[d + 39] == 0
}

pub open spec fn cygwin_ok(s: Seq<u8>) -> bool {
    has_cygwin_prefix(s) && cygwin_body_ok(s.skip(10))
}

pub open spec fn cygwin_port(s: Seq<u8>) -> int {
    let b = s.skip(10);
    dec_val(b.take(space_index(b)))
}

pub open spec fn cygwin_nonce(s: Seq<u8>) -> Seq<u8> {
    Seq::new(16, |j: int| cyg_nonce_byte(s.skip(10), j))
}

// ---------------------------------------------------------------------------
// The file as a whole
// ---------------------------------------------------------------------------

/// Dialect choice: the `!<socket >` prefix selects the Cygwin layout,
/// anything else is read as Assuan.
pub open spec fn rendezvous_ok(s: Seq<u8>) -> bool {
    if has_cygwin_prefix(s) {
        cygwin_ok(s)
    } else {
        assuan_ok(s)
    }
}

pub open spec fn rendezvous_port(s: Seq<u8>) -> int {
    if has_cygwin_prefix(s) {
        cygwin_port(s)
    } else {
        assuan_port(s)
    }
}

pub open spec fn rendezvous_nonce(s: Seq<u8>) -> Seq<u8> {
    if has_cygwin_prefix(s) {
        cygwin_nonce(s)
    } else {
        assuan_nonce(s)
    }
}

// ---------------------------------------------------------------------------
// Executable helpers
// ---------------------------------------------------------------------------

fn is_ws_byte(b: u8) -> (r: bool)
    ensures
        r == is_ascii_ws(b),
{
    b == 32 || b == 9 || b == 10 || b == 13 || b == 11 || b == 12
}

/// Locate the whitespace-trimmed region of `buf[..end]`.
fn trim_range(buf: &Vec<u8>, end: usize) -> (r: (usize, usize))
    requires
        end <= buf@.len(),
    ensures
        r.0 <= r.1 <= end,
        buf@.subrange(r.0 as int, r.1 as int) == trim_ws(buf@.take(end as int)),
{
    let mut lo: usize = 0;
    while lo < end && is_ws_byte(buf[lo])
        invariant
            lo <= end,
            end <= buf@.len(),
            trim_start(buf@.take(end as int)) == trim_start(buf@.subrange(lo as int, end as int)),
        decreases end - lo,
    {
        proof {
            let cur = buf@.subrange(lo as int, end as int);
            assert(cur.drop_first() =~= buf@.subrange(lo + 1, end as int));
        }
        lo = lo + 1;
    }
    proof {
        let cur = buf@.subrange(lo as int, end as int);
        assert(trim_start(cur) == cur);
    }
    let mut hi: usize = end;
    while hi > lo && is_ws_byte(buf[hi - 1])
        invariant
            lo <= hi <= end,
            end <= buf@.len(),
            trim_end(buf@.subrange(lo as int, end as int)) == trim_end(
                buf@.subrange(lo as int, hi as int),
            ),
        decreases hi,
    {
        proof {
            let cur = buf@.subrange(lo as int, hi as int);
            assert(cur.drop_last() =~= buf@.subrange(lo as int, hi - 1));
        }
        hi = hi - 1;
    }
    proof {
        let cur = buf@.subrange(lo as int, hi as int);
        assert(trim_end(cur) == cur);
    }
    (lo, hi)
}

/// Parse `buf[start..end]` as a decimal port, accepted exactly when the
/// region is one or more digits whose value lies in `1..=65535`.
fn parse_port(buf: &Vec<u8>, start: usize, end: usize) -> (r: Option<u16>)
    requires
        start <= end <= buf@.len(),
    ensures
        ({
            let s = buf@.subrange(start as int, end as int);
            match r {
                Some(p) => {
                    &&& s.len() >= 1
                    &&& all_digits(s)
                    &&& 1 <= p <= 65535
                    &&& p == dec_val(s)
                },
                None => !(s.len() >= 1 && all_digits(s) && 1 <= dec_val(s) <= 65535),
            }
        }),
{
    let ghost s = buf@.subrange(start as int, end as int);
    if start == end {
        return None;
    }
    let mut acc: u32 = 0;
    let mut i: usize = start;
    while i < end
        invariant
            start <= i <= end <= buf@.len(),
            s == buf@.subrange(start as int, end as int),
            all_digits(buf@.subrange(start as int, i as int)),
            acc == dec_val(buf@.subrange(start as int, i as int)),
            acc <= 65535,
        decreases end - i,
    {
        let c = buf[i];
        if !(48 <= c && c <= 57) {
            proof {
                assert(s[i - start] == c);
                assert(!all_digits(s));
            }
            return None;
        }
        proof {
            let prev = buf@.subrange(start as int, i as int);
            let next = buf@.subrange(start as int, i + 1);
            assert(next.drop_last() =~= prev);
            assert(next.last() == c);
        }
        let next_acc: u32 = acc * 10 + ((c - 48) as u32);
        if next_acc > 65535 {
            proof {
                if s.len() >= 1 && all_digits(s) {
                    lemma_dec_val_prefix(s, i + 1 - start);
                    assert(s.take(i + 1 - start) =~= buf@.subrange(start as int, i + 1));
                    assert(dec_val(s) >= next_acc);
                }
            }
            return None;
        }
        acc = next_acc;
        i = i + 1;
    }
    proof {
        assert(buf@.subrange(start as int, end as int) =~= s);
    }
    if acc == 0 {
        return None;
    }
    Some(acc as u16)
}

/// Copy `buf[start..end]` into a fresh vector.
fn copy_range(buf: &Vec<u8>, start: usize, end: usize) -> (r: Vec<u8>)
    requires
        start <= end <= buf@.len(),
    ensures
        r@ == buf@.subrange(start as int, end as int),
{
    let mut out: Vec<u8> = Vec::new();
    let mut i: usize = start;
    while i < end
        invariant
            start <= i <= end <= buf@.len(),
            out@ == buf@.subrange(start as int, i as int),
        decreases end - i,
    {
        out.push(buf[i]);
        proof {
            assert(out@ =~= buf@.subrange(start as int, i + 1));
        }
        i = i + 1;
    }
    out
}

fn cygwin_prefix_bytes() -> (r: Vec<u8>)
    ensures
        r@ == cygwin_prefix(),
{
    let mut v: Vec<u8> = Vec::new();
    v.push(33);
    v.push(60);
    v.push(115);
    v.push(111);
    v.push(99);
    v.push(107);
    v.push(101);
    v.push(116);
    v.push(32);
    v.push(62);
    proof {
        assert(v@ =~= cygwin_prefix());
    }
    v
}

/// True exactly when the buffer opens with the `!<socket >` prefix.
pub fn starts_cygwin(buf: &Vec<u8>) -> (r: bool)
    ensures
        r == has_cygwin_prefix(buf@),
{
    if buf.len() < 10 {
        return false;
    }
    let expected = cygwin_prefix_bytes();
    let mut i: usize = 0;
    while i < 10
        invariant
            i <= 10,
            buf@.len() >= 10,
            expected@ == cygwin_prefix(),
            forall|j: int| 0 <= j < i ==> buf@[j] == cygwin_prefix()[j],
        decreases 10 - i,
    {
        if buf[i] != expected[i] {
            proof {
                assert(buf@.take(10)[i as int] == buf@[i as int]);
                assert(buf@.take(10) != cygwin_prefix());
            }
            return false;
        }
        i = i + 1;
    }
    proof {
        assert(buf@.take(10) =~= cygwin_prefix());
    }
    true
}

fn find_first_space(buf: &Vec<u8>, start: usize) -> (r: Option<usize>)
    requires
        start <= buf@.len(),
    ensures
        match r {
            Some(i) => {
                &&& start <= i < buf@.len()
                &&& buf@[i as int] == 32
                &&& forall|j: int| start <= j < i ==> buf@[j] != 32
            },
            None => forall|j: int| start <= j < buf@.len() ==> buf@[j] != 32,
        },
{
    let mut i: usize = start;
    while i < buf.len()
        invariant
            start <= i <= buf@.len(),
            forall|j: int| start <= j < i ==> buf@[j] != 32,
        decreases buf@.len() - i,
    {
        if buf[i] == 32 {
            return Some(i);
        }
        i = i + 1;
    }
    None
}

/// Parse a rendezvous file in the Cygwin layout.
pub fn parse_cygwin(buf: &Vec<u8>) -> (r: Result<AgentEndpoint, BridgeError>)
    ensures
        r is Ok <==> cygwin_ok(buf@),
        r matches Ok(ep) ==> {
            &&& ep.wf()
            &&& ep.port == cygwin_port(buf@)
            &&& ep.nonce@ == cygwin_nonce(buf@)
        },
        r matches Err(e) ==> e is InvalidData,
{
    if !starts_cygwin(buf) {
        return Err(report_data_err("file is not in the cygwin socket layout".to_owned()));
    }
    let ghost body = buf@.skip(10);
    assert(forall|x: int| 0 <= x < body.len() ==> body[x] == buf@[10 + x]);
    let sp: usize = match find_first_space(buf, 10) {
        Some(i) => i,
        None => {
            proof {
                lemma_space_index(body);
                if space_index(body) < body.len() {
                    assert(body[space_index(body)] == 32);
                }
            }
            return Err(report_data_err("no port delimiter in cygwin socket file".to_owned()));
        },
    };
    proof {
        assert forall|j: int| 0 <= j < sp - 10 implies body[j] != 32 by {
            assert(body[j] == buf@[10 + j]);
        }
        assert(body[sp - 10] == 32);
        lemma_space_index_is(body, sp - 10);
    }
    let ghost d = sp - 10;
    let port: u16 = match parse_port(buf, 10, sp) {
        Some(p) => p,
        None => {
            proof {
                assert(buf@.subrange(10, sp as int) =~= body.take(d));
            }
            return Err(report_data_err("cygwin socket file holds no valid port".to_owned()));
        },
    };
    proof {
        assert(buf@.subrange(10, sp as int) =~= body.take(d));
    }
    if buf.len() < 40 || sp > buf.len() - 40 {
        return Err(report_data_err("cygwin socket file is too short".to_owned()));
    }
    if buf[sp + 1] != 115 || buf[sp + 2] != 32 {
        return Err(report_data_err("missing stream marker in cygwin socket file".to_owned()));
    }
    if buf[sp + 11] != 45 || buf[sp + 20] != 45 || buf[sp + 29] != 45 || buf[sp + 38] != 120
        || buf[sp + 39] != 0 {
        return Err(report_data_err("bad group separators in cygwin socket file".to_owned()));
    }
    let mut nonce: Vec<u8> = Vec::new();
    let mut j: usize = 0;
    while j < 16
        invariant
            j <= 16,
            10 <= sp,
            sp + 40 <= buf@.len(),
            buf@.len() <= usize::MAX,
            body == buf@.skip(10),
            d == sp - 10,
            space_index(body) == d,
            nonce@.len() == j,
            forall|x: int| 0 <= x < j ==> nonce@[x] == cyg_nonce_byte(body, x),
            forall|k: int| 0 <= k < 2 * j ==> is_lower_hex_digit(#[trigger] body[cyg_hex_pos(d, k)]),
        decreases 16 - j,
    {
        let khi: usize = 2 * j;
        let klo: usize = 2 * j + 1;
        let phi: usize = sp + 3 + 9 * (khi / 8) + (khi % 8);
        let plo: usize = sp + 3 + 9 * (klo / 8) + (klo % 8);
        proof {
            assert(phi == 10 + cyg_hex_pos(d, khi as int));
            assert(plo == 10 + cyg_hex_pos(d, klo as int));
        }
        let chi = buf[phi];
        let clo = buf[plo];
        let hv: u8 = if 48 <= chi && chi <= 57 {
            chi - 48
        } else if 97 <= chi && chi <= 102 {
            chi - 87
        } else {
            proof {
                assert(body[cyg_hex_pos(d, khi as int)] == chi);
                assert(!is_lower_hex_digit(chi));
            }
            return Err(report_data_err("bad hex digit in cygwin socket file".to_owned()));
        };
        let lv: u8 = if 48 <= clo && clo <= 57 {
            clo - 48
        } else if 97 <= clo && clo <= 102 {
            clo - 87
        } else {
            proof {
                assert(body[cyg_hex_pos(d, klo as int)] == clo);
                assert(!is_lower_hex_digit(clo));
            }
            return Err(report_data_err("bad hex digit in cygwin socket file".to_owned()));
        };
        nonce.push(hv * 16 + lv);
        proof {
            assert(body[cyg_hex_pos(d, khi as int)] == chi);
            assert(body[cyg_hex_pos(d, klo as int)] == clo);
            assert(nonce@[j as int] == cyg_nonce_byte(body, j as int));
            assert forall|k: int| 0 <= k < 2 * (j + 1) implies is_lower_hex_digit(
                #[trigger] body[cyg_hex_pos(d, k)],
            ) by {
                if k == 2 * j {
                    assert(body[cyg_hex_pos(d, k)] == chi);
                }
                if k == 2 * j + 1 {
                    assert(body[cyg_hex_pos(d, k)] == clo);
                }
            }
        }
        j = j + 1;
    }
    proof {
        assert(body.take(d) =~= buf@.subrange(10, sp as int));
        assert(body[d + 1] == buf@[sp + 1] && body[d + 2] == buf@[sp + 2]);
        assert(body[d + 11] == buf@[sp + 11] && body[d + 20] == buf@[sp + 20]);
        assert(body[d + 29] == buf@[sp + 29] && body[d + 38] == buf@[sp + 38]);
        assert(body[d + 39] == buf@[sp + 39]);
        assert(cygwin_body_ok(body));
        assert(nonce@ =~= cygwin_nonce(buf@));
    }
    Ok(AgentEndpoint { port, nonce })
}

/// Parse a rendezvous file, choosing the dialect by its content.
pub fn parse_rendezvous(buf: &Vec<u8>) -> (r: Result<AgentEndpoint, BridgeError>)
    ensures
        r is Ok <==> rendezvous_ok(buf@),
        r matches Ok(ep) ==> {
            &&& ep.wf()
            &&& ep.port == rendezvous_port(buf@)
            &&& ep.nonce@ == rendezvous_nonce(buf@)
        },
        r matches Err(e) ==> e is InvalidData,
{
    if starts_cygwin(buf) {
        parse_cygwin(buf)
    } else {
        parse_assuan(buf)
    }
}

/// Parse a rendezvous file in the Assuan layout: the last 16 bytes are the
/// nonce, the (trimmed) bytes before them the decimal port.
pub fn parse_assuan(buf: &Vec<u8>) -> (r: Result<AgentEndpoint, BridgeError>)
    ensures
        r is Ok <==> assuan_ok(buf@),
        r matches Ok(ep) ==> {
            &&& ep.wf()
            &&& ep.port == assuan_port(buf@)
            &&& ep.nonce@ == assuan_nonce(buf@)
        },
        r matches Err(e) ==> e is InvalidData,
{
    if buf.len() < 17 {
        return Err(report_data_err("rendezvous file is too short".to_owned()));
    }
    let split: usize = buf.len() - 16;
    let (lo, hi) = trim_range(buf, split);
    match parse_port(buf, lo, hi) {
        Some(port) => {
            let nonce = copy_range(buf, split, buf.len());
            Ok(AgentEndpoint { port, nonce })
        },
        None => Err(report_data_err("rendezvous file holds no valid port".to_owned())),
    }
}

// ---------------------------------------------------------------------------
// Round-trip laws
// ---------------------------------------------------------------------------

/// Round trip for the Assuan layout: a file made of decimal port digits, a
/// newline and 16 arbitrary bytes is accepted and parses back to exactly
/// that port value and those 16 bytes.
pub proof fn lemma_assuan_round_trip(digits: Seq<u8>, nonce: Seq<u8>)
    requires
        digits.len() >= 1,
        all_digits(digits),
        1 <= dec_val(digits) <= 65535,
        nonce.len() == 16,
    ensures
        ({
            let file = digits + seq![10u8] + nonce;
            &&& !has_cygwin_prefix(file)
            &&& rendezvous_ok(file)
            &&& rendezvous_port(file) == dec_val(digits)
            &&& rendezvous_nonce(file) == nonce
        }),
{
    let file = digits + seq![10u8] + nonce;
    assert(file.len() == digits.len() + 17);
    assert(file[0] == digits[0]);
    assert(is_ascii_digit(digits[0]));
    if has_cygwin_prefix(file) {
        assert(file.take(10)[0] == cygwin_prefix()[0]);
        assert(false);
    }
    let pre = file.take(file.len() - 16);
    assert(pre =~= digits + seq![10u8]);
    assert(!is_ascii_ws(pre[0]));
    assert(trim_start(pre) == pre);
    assert(pre.last() == 10u8);
    assert(pre.drop_last() =~= digits);
    assert(trim_end(pre) == trim_end(digits));
    assert(is_ascii_digit(digits.last()));
    assert(trim_end(digits) == digits);
    assert(assuan_port_digits(file) == digits);
    assert(file.subrange(file.len() - 16, file.len() as int) =~= nonce);
}

pub open spec fn hex_char_of(n: int) -> u8 {
    if n < 10 {
        (48 + n) as u8
    } else {
        (87 + n) as u8
    }
}

proof fn lemma_hex_char_of_val(n: int)
    requires
        0 <= n < 16,
    ensures
        is_lower_hex_digit(hex_char_of(n)),
        hex_digit_val(hex_char_of(n)) == n,
{
}

/// The eight lowercase hex digits spelling nonce bytes `4g .. 4g+4`, high
/// nibble first, in source order.
pub open spec fn hex_group(nonce: Seq<u8>, g: int) -> Seq<u8> {
    Seq::new(
        8,
        |w: int|
            hex_char_of(
                if w % 2 == 0 {
                    (nonce[4 * g + w / 2] as int) / 16
                } else {
                    (nonce[4 * g + w / 2] as int) % 16
                },
            ),
    )
}

/// A well-formed Cygwin-layout file for the given port digits and nonce.
pub open spec fn cygwin_render(digits: Seq<u8>, nonce: Seq<u8>) -> Seq<u8> {
    cygwin_prefix() + digits + seq![32u8, 115u8, 32u8] + hex_group(nonce, 0) + seq![45u8]
        + hex_group(nonce, 1) + seq![45u8] + hex_group(nonce, 2) + seq![45u8] + hex_group(nonce, 3)
        + seq![120u8, 0u8]
}

/// Round trip for the Cygwin layout: a rendered file is accepted, and the
/// parser recovers the port and the 16 nonce bytes in source order, with no
/// byte reordering.
pub proof fn lemma_cygwin_round_trip(digits: Seq<u8>, nonce: Seq<u8>)
    requires
        digits.len() >= 1,
        all_digits(digits),
        1 <= dec_val(digits) <= 65535,
        nonce.len() == 16,
    ensures
        ({
            let file = cygwin_render(digits, nonce);
            &&& has_cygwin_prefix(file)
            &&& rendezvous_ok(file)
            &&& rendezvous_port(file) == dec_val(digits)
            &&& rendezvous_nonce(file) == nonce
        }),
{
    let file = cygwin_render(digits, nonce);
    let dl = digits.len() as int;
    let body = file.skip(10);
    let tail = seq![32u8, 115u8, 32u8] + hex_group(nonce, 0) + seq![45u8] + hex_group(nonce, 1)
        + seq![45u8] + hex_group(nonce, 2) + seq![45u8] + hex_group(nonce, 3) + seq![120u8, 0u8];
    assert(file.len() == 10 + dl + 40);
    assert(body =~= digits + tail);
    assert(file.take(10) =~= cygwin_prefix());
    assert forall|j: int| 0 <= j < dl implies body[j] != 32 by {
        assert(body[j] == digits[j]);
        assert(is_ascii_digit(digits[j]));
    }
    assert(body[dl] == 32);
    lemma_space_index_is(body, dl);
    assert(body.take(dl) =~= digits);
    assert(body[dl + 1] == 115);
    assert(body[dl + 2] == 32);
    assert(body[dl + 11] == 45);
    assert(body[dl + 20] == 45);
    assert(body[dl + 29] == 45);
    assert(body[dl + 38] == 120);
    assert(body[dl + 39] == 0);
    assert forall|k: int| 0 <= k < 32 implies body[cyg_hex_pos(dl, k)] == hex_group(
        nonce,
        k / 8,
    )[k % 8] by {
        let g = k / 8;
        let w = k % 8;
        assert(k == 8 * g + w);
        assert(0 <= w < 8);
        if g == 0 {
            assert(body[dl + 3 + w] == hex_group(nonce, 0)[w]);
        } else if g == 1 {
            assert(body[dl + 12 + w] == hex_group(nonce, 1)[w]);
        } else if g == 2 {
            assert(body[dl + 21 + w] == hex_group(nonce, 2)[w]);
        } else {
            assert(g == 3);
            assert(body[dl + 30 + w] == hex_group(nonce, 3)[w]);
        }
    }
    assert forall|k: int| 0 <= k < 32 implies is_lower_hex_digit(
        #[trigger] body[cyg_hex_pos(dl, k)],
    ) by {
        let g = k / 8;
        let w = k % 8;
        let i = 4 * g + w / 2;
        assert(0 <= i < 16);
        assert(0 <= (nonce[i] as int) / 16 < 16);
        assert(0 <= (nonce[i] as int) % 16 < 16);
        if w % 2 == 0 {
            lemma_hex_char_of_val((nonce[i] as int) / 16);
        } else {
            lemma_hex_char_of_val((nonce[i] as int) % 16);
        }
    }
    assert(cygwin_body_ok(body));
    assert forall|j: int| 0 <= j < 16 implies #[trigger] cyg_nonce_byte(body, j) == nonce[j] by {
        let khi = 2 * j;
        let klo = 2 * j + 1;
        assert(khi / 8 == klo / 8 && khi / 8 == j / 4);
        assert(khi % 8 == 2 * (j % 4) && klo % 8 == 2 * (j % 4) + 1);
        let g = j / 4;
        let w = khi % 8;
        assert(4 * g + w / 2 == j);
        assert(4 * g + (w + 1) / 2 == j);
        assert(body[cyg_hex_pos(dl, khi)] == hex_group(nonce, g)[w]);
        assert(body[cyg_hex_pos(dl, klo)] == hex_group(nonce, g)[w + 1]);
        assert(hex_group(nonce, g)[w] == hex_char_of((nonce[j] as int) / 16));
        assert(hex_group(nonce, g)[w + 1] == hex_char_of((nonce[j] as int) % 16));
        lemma_hex_char_of_val((nonce[j] as int) / 16);
        lemma_hex_char_of_val((nonce[j] as int) % 16);
        assert(((nonce[j] as int) / 16) * 16 + (nonce[j] as int) % 16 == nonce[j]);
    }
    assert(cygwin_nonce(file) =~= nonce);
}

// ---------------------------------------------------------------------------
// Rejection laws
// ---------------------------------------------------------------------------

/// An Assuan-layout file whose port value lies outside `1..=65535` is never
/// accepted.
pub proof fn lemma_assuan_port_out_of_range(s: Seq<u8>)
    requires
        !(1 <= dec_val(assuan_port_digits(s)) <= 65535),
    ensures
        !assuan_ok(s),
{
}

/// A Cygwin-layout file whose port value lies outside `1..=65535` is never
/// accepted.
pub proof fn lemma_cygwin_port_out_of_range(s: Seq<u8>)
    requires
        !(1 <= cygwin_port(s) <= 65535),
    ensures
        !cygwin_ok(s),
{
}

/// A Cygwin-layout file whose group separators are anything but `-`, `-`,
/// `-`, `x` is never accepted.
pub proof fn lemma_cygwin_bad_separator(s: Seq<u8>)
    requires
        ({
            let b = s.skip(10);
            let d = space_index(b);
            b[d + 11] != 45 || b[d + 20] != 45 || b[d + 29] != 45 || b[d + 38] != 120
        }),
    ensures
        !cygwin_ok(s),
{
}

} // verus!
