//! Listen-endpoint classification.
//!
//! A listen address beginning with `\\.\pipe\` names a Windows named pipe;
//! anything else is taken as a TCP `host:port` bind address.  No other
//! detection is attempted, so a mistyped TCP address fails with a clear
//! bind error instead of silently becoming a pipe.

use vstd::prelude::*;

verus! {

#[derive(Clone, Copy, PartialEq, Eq, Structural, Debug)]
pub enum EndpointKind {
    Pipe,
    Tcp,
}

/// The nine bytes of the literal `\\.\pipe\`.
pub open spec fn pipe_prefix() -> Seq<u8> {
    seq![92u8, 92u8, 46u8, 92u8, 112u8, 105u8, 112u8, 101u8, 92u8]
}

pub open spec fn is_pipe_address(s: Seq<u8>) -> bool {
    s.len() >= 9 && s.take(9) == pipe_prefix()
}

fn pipe_prefix_bytes() -> (r: Vec<u8>)
    ensures
        r@ == pipe_prefix(),
{
    let mut v: Vec<u8> = Vec::new();
    v.push(92);
    v.push(92);
    v.push(46);
    v.push(92);
    v.push(112);
    v.push(105);
    v.push(112);
    v.push(101);
    v.push(92);
    proof {
        assert(v@ =~= pipe_prefix());
    }
    v
}

/// Classify a listen address by its prefix.
pub fn classify_endpoint(addr: &Vec<u8>) -> (k: EndpointKind)
    ensures
        k is Pipe <==> is_pipe_address(addr@),
{
    if addr.len() < 9 {
        return EndpointKind::Tcp;
    }
    let expected = pipe_prefix_bytes();
    let mut i: usize = 0;
    while i < 9
        invariant
            i <= 9,
            addr@.len() >= 9,
            expected@ == pipe_prefix(),
            forall|j: int| 0 <= j < i ==> addr@[j] == pipe_prefix()[j],
        decreases 9 - i,
    {
        if addr[i] != expected[i] {
            proof {
                assert(addr@.take(9)[i as int] == addr@[i as int]);
                assert(addr@.take(9) != pipe_prefix());
            }
            return EndpointKind::Tcp;
        }
        i = i + 1;
    }
    proof {
        assert(addr@.take(9) =~= pipe_prefix());
    }
    EndpointKind::Pipe
}

} // verus!
