//! The version string reported across the boundary.

use vstd::prelude::*;
use vstd::string::StringSliceAdditionalSpecFns;

verus! {

/// The version text: this binding and the engine it binds, as UTF-8 bytes.
pub open spec fn version_bytes() -> Seq<u8> {
    "crustls/0.1.0/rustls/0.19.1".spec_bytes()
}

/// Write the version text into the caller's buffer, truncated to the
/// buffer's length less one, and terminate it with a NUL byte; the count
/// returned excludes the NUL. A zero-length buffer is left untouched and
/// the count is zero. The rest of the buffer keeps its old contents.
pub fn rustls_version(buf: &mut Vec<u8>) -> (n: usize)
    ensures
        final(buf)@.len() == old(buf)@.len(),
        old(buf)@.len() == 0 ==> n == 0 && final(buf)@ == old(buf)@,
        old(buf)@.len() >= 1 ==> {
            &&& n == (if version_bytes().len() <= old(buf)@.len() - 1 {
                version_bytes().len() as int
            } else {
                old(buf)@.len() - 1
            })
            &&& final(buf)@ =~= version_bytes().take(n as int) + seq![0u8] + old(buf)@.skip(
                n + 1,
            )
        },
{
    let version: &str = "crustls/0.1.0/rustls/0.19.1";
    let vb: &[u8] = version.as_bytes();
    if buf.len() == 0 {
        return 0;
    }
    let cap = buf.len() - 1;
    let n = if vb.len() <= cap {
        vb.len()
    } else {
        cap
    };
    let mut k: usize = 0;
    while k < n
        invariant
            k <= n,
            n <= vb@.len(),
            n < buf@.len(),
            buf@.len() == old(buf)@.len(),
            vb@ == version_bytes(),
            forall|m: int| 0 <= m < k ==> buf@[m] == version_bytes()[m],
            forall|m: int| k <= m < buf@.len() ==> buf@[m] == old(buf)@[m],
        decreases n - k,
    {
        buf[k] = vb[k];
        k = k + 1;
    }
    buf[n] = 0;
    n
}

} // verus!
