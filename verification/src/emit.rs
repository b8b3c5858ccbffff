//! Text emission for the three target languages.
//!
//! Code generation proper is the wrapped core's concern; what the layer
//! guarantees is the envelope the options and overrides drive: the version
//! header a GLSL module compiles under, the shader-model banner of an HLSL
//! module, and the MSL resource-binding slots, where an override stored for
//! a (stage, descriptor set, binding) key replaces the default slot taken
//! from the binding decoration.

use crate::compiler::bytes_as_chars;
use crate::compiler::cleansed_name;
use crate::compiler::resources_of;
use crate::compiler::ResourceModel;
use crate::engine::deco_or_zero;
use crate::engine::EngineModel;
use crate::engine::RawGlslOptions;
use crate::engine::RawHlslOptions;
use crate::engine::RawResourceBinding;
use crate::engine::TargetKind;
use vstd::prelude::*;
use vstd::string::StringExecFns;

verus! {

/// The decimal digits of `n`, as characters.
pub open spec fn dec_chars(n: u32) -> Seq<char>
    decreases n,
{
    let d = digit_char((n % 10) as int);
    if n < 10 {
        seq![d]
    } else {
        dec_chars(n / 10).push(d)
    }
}

/// The character of one decimal digit.
pub open spec fn digit_char(d: int) -> char {
    if d == 0 {
        '0'
    } else if d == 1 {
        '1'
    } else if d == 2 {
        '2'
    } else if d == 3 {
        '3'
    } else if d == 4 {
        '4'
    } else if d == 5 {
        '5'
    } else if d == 6 {
        '6'
    } else if d == 7 {
        '7'
    } else if d == 8 {
        '8'
    } else {
        '9'
    }
}

/// Appends the decimal digits of `n`.
pub(crate) fn push_dec(n: u32, out: &mut String)
    ensures
        final(out)@ == old(out)@ + dec_chars(n),
    decreases n,
{
    if n >= 10 {
        push_dec(n / 10, out);
    }
    let d = n % 10;
    if d == 0 {
        out.append("0");
    } else if d == 1 {
        out.append("1");
    } else if d == 2 {
        out.append("2");
    } else if d == 3 {
        out.append("3");
    } else if d == 4 {
        out.append("4");
    } else if d == 5 {
        out.append("5");
    } else if d == 6 {
        out.append("6");
    } else if d == 7 {
        out.append("7");
    } else if d == 8 {
        out.append("8");
    } else {
        out.append("9");
    }
    proof {
        reveal_strlit("0");
        reveal_strlit("1");
        reveal_strlit("2");
        reveal_strlit("3");
        reveal_strlit("4");
        reveal_strlit("5");
        reveal_strlit("6");
        reveal_strlit("7");
        reveal_strlit("8");
        reveal_strlit("9");
        if n < 10 {
            assert(out@ =~= old(out)@ + dec_chars(n));
        } else {
            assert(out@ =~= old(out)@ + dec_chars(n));
        }
    }
}

/// The GLSL source envelope: the version directive the options demand, then
/// an empty main.
pub open spec fn emit_glsl(o: RawGlslOptions) -> Seq<char> {
    "#version "@ + dec_chars(o.version) + (if o.es {
        " es"@
    } else {
        Seq::<char>::empty()
    }) + "\n\nvoid main()\n{\n}\n"@
}

/// Builds the GLSL source envelope.
pub(crate) fn emit_glsl_exec(o: &RawGlslOptions) -> (r: String)
    ensures
        r@ == emit_glsl(*o),
{
    let mut out = String::new();
    out.append("#version ");
    push_dec(o.version, &mut out);
    if o.es {
        out.append(" es");
    }
    out.append("\n\nvoid main()\n{\n}\n");
    proof {
        assert(out@ =~= emit_glsl(*o));
    }
    out
}

/// The HLSL source envelope: the shader-model banner, then an empty main.
pub open spec fn emit_hlsl(o: RawHlslOptions) -> Seq<char> {
    "// shader model "@ + dec_chars(
        if o.shader_model >= 0 {
            o.shader_model as u32
        } else {
            0
        },
    ) + "\n\nvoid main()\n{\n}\n"@
}

/// Builds the HLSL source envelope.
pub(crate) fn emit_hlsl_exec(o: &RawHlslOptions) -> (r: String)
    ensures
        r@ == emit_hlsl(*o),
{
    let mut out = String::new();
    out.append("// shader model ");
    let sm: u32 = if o.shader_model >= 0 {
        o.shader_model as u32
    } else {
        0
    };
    push_dec(sm, &mut out);
    out.append("\n\nvoid main()\n{\n}\n");
    proof {
        assert(out@ =~= emit_hlsl(*o));
    }
    out
}

/// The MSL buffer slot of a resource: the first stored override for this
/// (stage, descriptor set, binding) key, or the binding itself when none is
/// stored.
pub open spec fn msl_buffer_slot(
    overrides: Seq<RawResourceBinding>,
    stage: u32,
    dset: u32,
    binding: u32,
) -> u32
    decreases overrides.len(),
{
    if overrides.len() == 0 {
        binding
    } else if overrides[0].stage == stage && overrides[0].desc_set == dset && overrides[0].binding
        == binding {
        overrides[0].msl_buffer
    } else {
        msl_buffer_slot(overrides.drop_first(), stage, dset, binding)
    }
}

/// A scan that found its first override match at `j` resolves to it.
pub proof fn lemma_slot_at(
    overrides: Seq<RawResourceBinding>,
    stage: u32,
    dset: u32,
    binding: u32,
    j: int,
)
    requires
        0 <= j < overrides.len(),
        overrides[j].stage == stage,
        overrides[j].desc_set == dset,
        overrides[j].binding == binding,
        forall|i: int|
            0 <= i < j ==> !((#[trigger] overrides[i]).stage == stage && overrides[i].desc_set
                == dset && overrides[i].binding == binding),
    ensures
        msl_buffer_slot(overrides, stage, dset, binding) == overrides[j].msl_buffer,
    decreases j,
{
    if j > 0 {
        let t = overrides.drop_first();
        assert forall|i: int|
            0 <= i < j - 1 implies !((#[trigger] t[i]).stage == stage && t[i].desc_set == dset
            && t[i].binding == binding) by {
            assert(t[i] == overrides[i + 1]);
        }
        assert(t[j - 1] == overrides[j]);
        lemma_slot_at(t, stage, dset, binding, j - 1);
    }
}

/// A scan that found no override resolves to the binding itself.
pub proof fn lemma_slot_none(
    overrides: Seq<RawResourceBinding>,
    stage: u32,
    dset: u32,
    binding: u32,
)
    requires
        forall|i: int|
            0 <= i < overrides.len() ==> !((#[trigger] overrides[i]).stage == stage
                && overrides[i].desc_set == dset && overrides[i].binding == binding),
    ensures
        msl_buffer_slot(overrides, stage, dset, binding) == binding,
    decreases overrides.len(),
{
    if overrides.len() > 0 {
        let t = overrides.drop_first();
        assert forall|i: int|
            0 <= i < t.len() implies !((#[trigger] t[i]).stage == stage && t[i].desc_set == dset
            && t[i].binding == binding) by {
            assert(t[i] == overrides[i + 1]);
        }
        lemma_slot_none(t, stage, dset, binding);
    }
}

/// Resolves one buffer slot against the stored overrides.
pub(crate) fn msl_buffer_slot_exec(
    overrides: &Vec<RawResourceBinding>,
    stage: u32,
    dset: u32,
    binding: u32,
) -> (r: u32)
    ensures
        r == msl_buffer_slot(overrides@, stage, dset, binding),
{
    let n = overrides.len();
    let mut j: usize = 0;
    while j < n
        invariant
            n == overrides@.len(),
            j <= n,
            forall|i: int|
                0 <= i < j ==> !((#[trigger] overrides@[i]).stage == stage && overrides@[i].desc_set
                    == dset && overrides@[i].binding == binding),
        decreases n - j,
    {
        let o = overrides[j];
        if o.stage == stage && o.desc_set == dset && o.binding == binding {
            proof {
                lemma_slot_at(overrides@, stage, dset, binding, j as int);
            }
            return o.msl_buffer;
        }
        j = j + 1;
    }
    proof {
        lemma_slot_none(overrides@, stage, dset, binding);
    }
    binding
}

/// The stage the module compiles for: the execution model of its first
/// entry point, or `0` when it declares none.
pub open spec fn module_stage(m: EngineModel) -> u32 {
    if m.entry_points.len() > 0 {
        m.entry_points[0].execution_model
    } else {
        0
    }
}

/// One MSL buffer-binding line.
pub open spec fn msl_buffer_line(
    m: EngineModel,
    overrides: Seq<RawResourceBinding>,
    r: ResourceModel,
) -> Seq<char> {
    let dset = deco_or_zero(m.decorations, r.id, 34);
    let binding = deco_or_zero(m.decorations, r.id, 33);
    "// "@ + bytes_as_chars(r.name) + " [[buffer("@ + dec_chars(
        msl_buffer_slot(overrides, module_stage(m), dset, binding),
    ) + ")]]\n"@
}

/// The MSL buffer-binding lines of the first `k` uniform buffers.
pub open spec fn msl_buffer_lines(
    m: EngineModel,
    overrides: Seq<RawResourceBinding>,
    k: int,
) -> Seq<char>
    decreases k,
{
    if k <= 0 {
        Seq::empty()
    } else {
        msl_buffer_lines(m, overrides, k - 1) + msl_buffer_line(
            m,
            overrides,
            resources_of(m, 0)[k - 1],
        )
    }
}

/// The entry-point banners of the first `k` entry points, under their
/// cleansed names.
pub open spec fn msl_entry_lines(m: EngineModel, k: int) -> Seq<char>
    decreases k,
{
    if k <= 0 {
        Seq::empty()
    } else {
        msl_entry_lines(m, k - 1) + ("// entry "@ + bytes_as_chars(
            cleansed_name(TargetKind::Msl, m.entry_points[k - 1].name),
        ) + "\n"@)
    }
}

/// The MSL source envelope: the standard prologue, one banner per entry
/// point under its cleansed name, and one line per uniform buffer showing
/// the buffer slot its binding resolves to.
pub open spec fn emit_msl(m: EngineModel, overrides: Seq<RawResourceBinding>) -> Seq<char> {
    "#include <metal_stdlib>\nusing namespace metal;\n"@ + msl_entry_lines(
        m,
        m.entry_points.len() as int,
    ) + msl_buffer_lines(m, overrides, resources_of(m, 0).len() as int)
}

} // verus!
