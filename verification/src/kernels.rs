//! Typed dispatch layer over a raw GPU compute client. Each kernel variant
//! declares its name, its workgroup size, whether it carries a uniform
//! struct, and its boolean feature flags. `execute` computes the dispatch
//! grid that covers a logical problem size, assembles the ordered binding
//! list (uniforms first, then reads, then writes), and returns the finished
//! submission for an unverified shell to hand to the device queue.

use vstd::prelude::*;

verus! {

/// Ceiling division: the least number of workgroups of size `w` that cover
/// `e` work items.
pub open spec fn div_ceil_spec(e: u32, w: u32) -> u32
    recommends
        w >= 1,
{
    ((e + w - 1) as int / w as int) as u32
}

/// Computes one axis of the dispatch grid: the least multiple of the
/// workgroup size that reaches the logical problem size.
pub fn div_ceil(e: u32, w: u32) -> (r: u32)
    requires
        w >= 1,
    ensures
        r == div_ceil_spec(e, w),
        r as int * w as int >= e as int,
        (r as int - 1) * (w as int) < (e as int),
{
    let q = e / w;
    let rem = e % w;
    proof {
        vstd::arithmetic::div_mod::lemma_fundamental_div_mod(e as int, w as int);
        assert(e as int == w as int * (e as int / w as int) + (e as int % w as int));
        if rem == 0 {
            assert((e as int + w as int - 1) / w as int == q as int) by (nonlinear_arith)
                requires
                    w as int >= 1,
                    e as int == w as int * (q as int),
            ;
            assert(q as int * w as int >= e as int) by (nonlinear_arith)
                requires
                    e as int == w as int * (q as int),
            ;
            assert((q as int - 1) * (w as int) < (e as int)) by (nonlinear_arith)
                requires
                    w as int >= 1,
                    e as int == w as int * (q as int),
            ;
        } else {
            assert((e as int + w as int - 1) / w as int == q as int + 1) by (nonlinear_arith)
                requires
                    w as int >= 1,
                    0 < (rem as int) < (w as int),
                    e as int == w as int * (q as int) + rem as int,
            ;
            assert((q as int + 1) * w as int >= e as int) by (nonlinear_arith)
                requires
                    w as int >= 1,
                    (rem as int) < (w as int),
                    e as int == w as int * (q as int) + rem as int,
            ;
            assert(q as int * (w as int) < (e as int)) by (nonlinear_arith)
                requires
                    0 < (rem as int),
                    e as int == w as int * (q as int) + rem as int,
            ;
            assert(q as int <= q as int * (w as int)) by (nonlinear_arith)
                requires
                    w as int >= 1,
                    q as int >= 0,
            ;
        }
    }
    if rem == 0 {
        q
    } else {
        q + 1
    }
}

/// One slot in the ordered binding list of a submission.
pub enum DispatchBinding<B> {
    /// The per-dispatch uniform buffer, already packed to bytes; created and
    /// owned by the dispatch call.
    Uniform(Vec<u8>),
    /// A pre-existing device buffer owned by the caller.
    Buffer(B),
}

/// A finished kernel submission: everything the compute client needs, with
/// the binding order the shaders were authored against.
pub struct Submission<B> {
    pub kernel_name: &'static str,
    pub shader_defines: Vec<&'static str>,
    pub workgroup_size: [u32; 3],
    pub grid: [u32; 3],
    pub bindings: Vec<DispatchBinding<B>>,
}

/// Relates a flag name to its upper-cased preprocessor define.
pub open spec fn is_uppercased(lower: Seq<char>, upper: Seq<char>) -> bool {
    &&& upper.len() == lower.len()
    &&& forall|i: int|
        0 <= i < lower.len() ==> (if 'a' <= lower[i] <= 'z' {
            upper[i] as u32 == lower[i] as u32 - 32
        } else {
            upper[i] == lower[i]
        })
}

/// Every dimension of a workgroup size is at least 1.
pub open spec fn workgroup_wf(wg: [u32; 3]) -> bool {
    wg[0] >= 1 && wg[1] >= 1 && wg[2] >= 1
}

/// A compute-kernel descriptor: stable name, workgroup size, uniform
/// presence, and the preprocessor defines contributed by its feature flags.
pub trait SplatKernel: Sized {
    /// The kernel's stable name.
    spec fn spec_name(&self) -> Seq<char>;

    /// The defines contributed by the flags that are set.
    spec fn spec_defines(&self) -> Seq<Seq<char>>;

    /// Whether the kernel declares a (non-unit) uniform struct.
    spec fn spec_has_uniforms(&self) -> bool;

    /// The workgroup size the kernel's shader module was compiled with.
    spec fn spec_workgroup_size(&self) -> [u32; 3];

    fn name(&self) -> (r: &'static str)
        ensures
            r@ == self.spec_name(),
    ;

    fn shader_defines(&self) -> (r: Vec<&'static str>)
        ensures
            r.deep_view() == self.spec_defines(),
    ;

    fn has_uniforms(&self) -> (r: bool)
        ensures
            r == self.spec_has_uniforms(),
    ;

    fn workgroup_size(&self) -> (r: [u32; 3])
        ensures
            r == self.spec_workgroup_size(),
    ;
}

/// Builds the submission for one kernel dispatch.
///
/// The grid covers the logical problem size `executions` with as few
/// workgroups as possible, and the binding list is the uniform buffer (when
/// the kernel has one), then the reads in order, then the writes in order.
pub fn execute<K: SplatKernel, B>(
    kernel: &K,
    uniforms: Vec<u8>,
    reads: Vec<B>,
    writes: Vec<B>,
    executions: [u32; 3],
) -> (s: Submission<B>)
    requires
        workgroup_wf(kernel.spec_workgroup_size()),
        (uniforms@.len() == 0) == !kernel.spec_has_uniforms(),
    ensures
        s.kernel_name@ == kernel.spec_name(),
        s.shader_defines.deep_view() == kernel.spec_defines(),
        s.workgroup_size == kernel.spec_workgroup_size(),
        forall|a: int|
            0 <= a < 3 ==> s.grid[a] as int * s.workgroup_size[a] as int >= executions[a] as int,
        forall|a: int|
            0 <= a < 3 ==> (s.grid[a] as int - 1) * (s.workgroup_size[a] as int) < (
            executions[a] as int),
        s.bindings@.len() == (if kernel.spec_has_uniforms() {
            1int
        } else {
            0int
        }) + reads@.len() + writes@.len(),
        kernel.spec_has_uniforms() ==> s.bindings@[0] == DispatchBinding::<B>::Uniform(uniforms),
        forall|k: int|
            0 <= k < reads@.len() ==> s.bindings@[(if kernel.spec_has_uniforms() {
                1int
            } else {
                0int
            }) + k] == DispatchBinding::Buffer(reads@[k]),
        forall|k: int|
            0 <= k < writes@.len() ==> s.bindings@[(if kernel.spec_has_uniforms() {
                1int
            } else {
                0int
            }) + reads@.len() + k] == DispatchBinding::Buffer(writes@[k]),
{
    let wg = kernel.workgroup_size();
    let grid = [
        div_ceil(executions[0], wg[0]),
        div_ceil(executions[1], wg[1]),
        div_ceil(executions[2], wg[2]),
    ];
    let mut bindings: Vec<DispatchBinding<B>> = Vec::new();
    if uniforms.len() != 0 {
        bindings.push(DispatchBinding::Uniform(uniforms));
    }
    let mut wrapped_reads = wrap_buffers(reads);
    bindings.append(&mut wrapped_reads);
    let mut wrapped_writes = wrap_buffers(writes);
    bindings.append(&mut wrapped_writes);
    Submission {
        kernel_name: kernel.name(),
        shader_defines: kernel.shader_defines(),
        workgroup_size: wg,
        grid,
        bindings,
    }
}

/// Tags each caller-owned device buffer as a buffer binding, keeping order.
fn wrap_buffers<B>(buffers: Vec<B>) -> (r: Vec<DispatchBinding<B>>)
    ensures
        r@.len() == buffers@.len(),
        forall|k: int|
            0 <= k < buffers@.len() ==> r@[k] == DispatchBinding::Buffer(buffers@[k]),
{
    let mut out: Vec<DispatchBinding<B>> = Vec::new();
    let mut rest = buffers;
    while rest.len() > 0
        invariant
            out@.len() + rest@.len() == buffers@.len(),
            forall|k: int|
                0 <= k < out@.len() ==> out@[k] == DispatchBinding::Buffer(buffers@[k]),
            forall|k: int|
                0 <= k < rest@.len() ==> rest@[k] == buffers@[out@.len() + k],
        decreases rest@.len(),
    {
        let b = rest.remove(0);
        out.push(DispatchBinding::Buffer(b));
    }
    out
}

} // verus!
