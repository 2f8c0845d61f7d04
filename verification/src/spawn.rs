//! Resolution of a caller-supplied logical resource name into the
//! references a worker spawn needs.
//!
//! The platform layer hands in the current location context (`href`) as
//! bytes; this module derives the executable-script reference and the
//! companion binary-payload reference that the executable loads at
//! startup.  Creating the execution context itself is the platform
//! layer's job.

use vstd::prelude::*;

verus! {

/// `s` with every non-overlapping occurrence of `pat`, scanning left to
/// right, replaced by `rep`.
pub open spec fn spec_replace(s: Seq<u8>, pat: Seq<u8>, rep: Seq<u8>) -> Seq<u8>
    decreases s.len(),
{
    if pat.len() == 0 || s.len() < pat.len() {
        s
    } else if s.subrange(0, pat.len() as int) == pat {
        rep + spec_replace(s.skip(pat.len() as int), pat, rep)
    } else {
        seq![s[0]] + spec_replace(s.skip(1), pat, rep)
    }
}

/// The bytes of the script-name suffix `".js"`.
pub open spec fn spec_js_suffix() -> Seq<u8> {
    seq![46u8, 106u8, 115u8]
}

/// The bytes of the binary-payload suffix `"_bg.wasm"`.
pub open spec fn spec_wasm_suffix() -> Seq<u8> {
    seq![95u8, 98u8, 103u8, 46u8, 119u8, 97u8, 115u8, 109u8]
}

/// Everything a platform spawn of one worker execution context needs:
/// the resolved executable-script reference, the companion binary-payload
/// reference, and whether the entry point loads as a module unit or a
/// classic script unit.
pub struct WorkerSpawn {
    /// The executable-script reference, resolved against the location.
    pub script_url: Vec<u8>,
    /// The binary payload the executable loads at startup.
    pub wasm_url: Vec<u8>,
    /// Loader distinction: module unit or classic script unit.
    pub is_module: bool,
}

/// True when `pat` occurs in `s` at offset `i`.
fn match_at(s: &[u8], i: usize, pat: &[u8]) -> (r: bool)
    requires
        i + pat@.len() <= s@.len(),
    ensures
        r <==> s@.subrange(i as int, i as int + pat@.len() as int) == pat@,
{
    let n = s.len();
    let mut j: usize = 0;
    while j < pat.len()
        invariant
            n == s@.len(),
            i + pat@.len() <= s@.len(),
            j <= pat@.len(),
            forall|k: int| 0 <= k < j ==> s@[i + k] == pat@[k],
        decreases pat@.len() - j,
    {
        if *vstd::slice::slice_index_get(s, i + j) != *vstd::slice::slice_index_get(pat, j) {
            proof {
                assert(s@.subrange(i as int, i as int + pat@.len() as int)[j as int] != pat@[
                j as int]);
            }
            return false;
        }
        j += 1;
    }
    proof {
        assert(s@.subrange(i as int, i as int + pat@.len() as int) =~= pat@);
    }
    true
}

/// `s` with every non-overlapping occurrence of `pat` replaced by `rep`,
/// scanning left to right.
pub fn replace_bytes(s: &[u8], pat: &[u8], rep: &[u8]) -> (r: Vec<u8>)
    requires
        pat@.len() > 0,
    ensures
        r@ == spec_replace(s@, pat@, rep@),
{
    let mut out: Vec<u8> = Vec::new();
    let mut i: usize = 0;
    proof {
        assert(s@.skip(0) =~= s@);
        assert(out@ + spec_replace(s@.skip(0), pat@, rep@) =~= spec_replace(s@, pat@, rep@));
    }
    while i < s.len()
        invariant
            pat@.len() > 0,
            i <= s@.len(),
            spec_replace(s@, pat@, rep@) == out@ + spec_replace(s@.skip(i as int), pat@, rep@),
        decreases s@.len() - i,
    {
        let ghost tail = s@.skip(i as int);
        if pat.len() <= s.len() - i && match_at(s, i, pat) {
            out.extend_from_slice(rep);
            proof {
                assert(tail.subrange(0, pat@.len() as int) =~= s@.subrange(
                    i as int,
                    i as int + pat@.len() as int,
                ));
                assert(tail.skip(pat@.len() as int) =~= s@.skip(i as int + pat@.len() as int));
                assert(spec_replace(tail, pat@, rep@) == rep@ + spec_replace(
                    s@.skip(i as int + pat@.len() as int),
                    pat@,
                    rep@,
                ));
            }
            i += pat.len();
        } else {
            out.push(*vstd::slice::slice_index_get(s, i));
            proof {
                if tail.len() < pat@.len() {
                    assert(spec_replace(tail, pat@, rep@) == tail);
                    assert(tail.skip(1) =~= s@.skip(i as int + 1));
                    assert(spec_replace(tail.skip(1), pat@, rep@) == tail.skip(1));
                    assert(tail =~= seq![s@[i as int]] + tail.skip(1));
                } else {
                    assert(tail.subrange(0, pat@.len() as int) =~= s@.subrange(
                        i as int,
                        i as int + pat@.len() as int,
                    ));
                    assert(tail.skip(1) =~= s@.skip(i as int + 1));
                    assert(spec_replace(tail, pat@, rep@) == seq![tail[0]] + spec_replace(
                        tail.skip(1),
                        pat@,
                        rep@,
                    ));
                }
            }
            i += 1;
        }
        proof {
            assert(spec_replace(s@, pat@, rep@) == out@ + spec_replace(
                s@.skip(i as int),
                pat@,
                rep@,
            ));
        }
    }
    proof {
        assert(s@.skip(i as int) =~= Seq::<u8>::empty());
        assert(spec_replace(Seq::<u8>::empty(), pat@, rep@) == Seq::<u8>::empty());
        assert(out@ + Seq::<u8>::empty() =~= out@);
    }
    out
}

/// The two byte slices, concatenated into an owned buffer.
fn concat_bytes(a: &[u8], b: &[u8]) -> (r: Vec<u8>)
    ensures
        r@ == a@ + b@,
{
    let mut r: Vec<u8> = Vec::new();
    r.extend_from_slice(a);
    r.extend_from_slice(b);
    proof {
        assert(r@ =~= a@ + b@);
    }
    r
}

/// Resolves a logical resource name against the current location context.
///
/// The executable-script reference is the location followed by the name;
/// the binary-payload reference is the location followed by the name with
/// its `".js"` suffix rewritten to `"_bg.wasm"`.
pub fn worker_new(href: &[u8], name_of_resource: &[u8], is_module: bool) -> (r: WorkerSpawn)
    ensures
        r.script_url@ == href@ + name_of_resource@,
        r.wasm_url@ == href@ + spec_replace(name_of_resource@, spec_js_suffix(), spec_wasm_suffix()),
        r.is_module == is_module,
{
    let js: [u8; 3] = [46u8, 106u8, 115u8];
    let wasm: [u8; 8] = [95u8, 98u8, 103u8, 46u8, 119u8, 97u8, 115u8, 109u8];
    proof {
        assert(js@ =~= spec_js_suffix());
        assert(wasm@ =~= spec_wasm_suffix());
    }
    let script_url = concat_bytes(href, name_of_resource);
    let wasm_name = replace_bytes(name_of_resource, js.as_slice(), wasm.as_slice());
    let wasm_url = concat_bytes(href, wasm_name.as_slice());
    WorkerSpawn { script_url, wasm_url, is_module }
}

} // verus!
