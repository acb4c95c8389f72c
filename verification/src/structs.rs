//! The struct synthesizer: emits the Uniforms record from the reflection
//! metadata, the Vertex-input record from the scanned attribute
//! declarations, and the Stage-output record from the scanned varying
//! declarations.

use vstd::prelude::*;
use vstd::string::StringExecFns;
use crate::scan::{
    scan_decls, scan_decls_chars, decls_view, table_view_str, Decl,
};
use crate::text::{
    append_chars, append_str, chars_of, string_from_chars, lines_of, lines_chars,
    lemma_deep_push_str,
};
use crate::types::{
    DeclCategory, ShaderMeta, TranslateError, TranslateErrorView, UniformDesc, UniformKind,
    uniforms_seq,
};

verus! {

/// The target spelling of a uniform kind's field type; the integer kinds are
/// outside the supported set.
pub open spec fn uniform_type_text(k: UniformKind) -> Option<Seq<char>> {
    match k {
        UniformKind::Float1 => Some("float"@),
        UniformKind::Float2 => Some("float2"@),
        UniformKind::Float3 => Some("float3"@),
        UniformKind::Float4 => Some("float4"@),
        UniformKind::Mat4 => Some("float4x4"@),
        _ => None,
    }
}

/// The field lines of the Uniforms record, one per metadata entry, in
/// metadata order; the first entry whose kind lies outside the supported set
/// is an unsupported-uniform-kind error.
pub open spec fn uniform_fields(us: Seq<(Seq<char>, UniformKind)>) -> Result<
    Seq<char>,
    TranslateErrorView,
>
    decreases us.len(),
{
    if us.len() == 0 {
        Ok(Seq::empty())
    } else {
        match uniform_type_text(us[0].1) {
            None => Err(TranslateErrorView::UnsupportedUniformKind { name: us[0].0 }),
            Some(t) => match uniform_fields(us.skip(1)) {
                Ok(rest) => Ok("    "@ + t + " "@ + us[0].0 + ";\n"@ + rest),
                Err(e) => Err(e),
            },
        }
    }
}

/// The full text of the Uniforms record.
pub open spec fn uniforms_struct_spec(us: Seq<(Seq<char>, UniformKind)>) -> Result<
    Seq<char>,
    TranslateErrorView,
> {
    match uniform_fields(us) {
        Ok(f) => Ok("struct Uniforms {\n"@ + f + "};\n"@),
        Err(e) => Err(e),
    }
}

/// Builds the field lines of the Uniforms record.
pub(crate) fn uniform_fields_chars(uniforms: &Vec<UniformDesc>) -> (r: Result<Vec<char>, TranslateError>)
    ensures
        ({
            let sr = uniform_fields(uniforms_seq(uniforms@));
            match r {
                Ok(v) => sr == Ok::<_, TranslateErrorView>(v@),
                Err(e) => sr == Err::<Seq<char>, _>(e@),
            }
        }),
{
    let ghost us = uniforms_seq(uniforms@);
    let mut out: Vec<char> = Vec::new();
    let mut i: usize = 0;
    proof {
        assert(us.skip(0) =~~= us);
        assert(out@ =~= Seq::<char>::empty());
    }
    while i < uniforms.len()
        invariant
            i <= uniforms.len(),
            us == uniforms_seq(uniforms@),
            us.len() == uniforms@.len(),
            ({
                let whole = uniform_fields(us);
                match uniform_fields(us.skip(i as int)) {
                    Ok(f) => whole == Ok::<_, TranslateErrorView>(out@ + f),
                    Err(e) => whole == Err::<Seq<char>, _>(e),
                }
            }),
        decreases uniforms.len() - i,
    {
        let u = &uniforms[i];
        proof {
            assert(us.skip(i as int)[0] == us[i as int]);
            assert(us.skip(i as int).skip(1) =~~= us.skip(i + 1));
            assert(us[i as int] == (uniforms@[i as int].name@, uniforms@[i as int].kind));
        }
        let ty: &str = match u.kind {
            UniformKind::Float1 => "float",
            UniformKind::Float2 => "float2",
            UniformKind::Float3 => "float3",
            UniformKind::Float4 => "float4",
            UniformKind::Mat4 => "float4x4",
            UniformKind::Int1 | UniformKind::Int2 | UniformKind::Int3 | UniformKind::Int4 => {
                return Err(TranslateError::UnsupportedUniformKind { name: u.name.clone() });
            },
        };
        proof {
            assert(uniform_type_text(us[i as int].1) == Some(ty@));
        }
        let ghost out0 = out@;
        append_str(&mut out, "    ");
        append_str(&mut out, ty);
        append_str(&mut out, " ");
        append_str(&mut out, u.name.as_str());
        append_str(&mut out, ";\n");
        proof {
            let field = "    "@ + ty@ + " "@ + us[i as int].0 + ";\n"@;
            assert(out@ =~= out0 + field);
            if uniform_fields(us.skip(i + 1)) is Ok {
                let f2 = uniform_fields(us.skip(i + 1))->Ok_0;
                assert(out0 + (field + f2) =~= out@ + f2);
            }
        }
        i = i + 1;
    }
    proof {
        assert(us.skip(us.len() as int) =~~= Seq::<(Seq<char>, UniformKind)>::empty());
        assert(out@ + Seq::<char>::empty() =~= out@);
    }
    Ok(out)
}

/// Emits the Uniforms record for the metadata's uniform block, one field per
/// entry in metadata order, each typed by the fixed kind-to-type table. A
/// kind outside the supported set refuses the whole record and leaves the
/// buffer untouched.
pub fn emit_uniforms_struct(processed: &mut String, meta: &ShaderMeta) -> (r: Result<
    (),
    TranslateError,
>)
    ensures
        ({
            let sr = uniforms_struct_spec(meta.uniforms_view());
            match r {
                Ok(_) => sr matches Ok(t) && final(processed)@ == old(processed)@ + t,
                Err(e) => sr == Err::<Seq<char>, _>(e@) && final(processed)@ == old(processed)@,
            }
        }),
{
    match uniform_fields_chars(&meta.uniforms) {
        Err(e) => Err(e),
        Ok(f) => {
            let mut text = chars_of("struct Uniforms {\n");
            append_chars(&mut text, &f);
            append_str(&mut text, "};\n");
            let s = string_from_chars(&text);
            processed.append(s.as_str());
            Ok(())
        },
    }
}

/// One field line of a synthesized record: type, name, and the slot
/// annotation where the declaration carried one.
pub open spec fn field_line(t: (Seq<char>, Seq<char>, Option<Seq<char>>)) -> Seq<char> {
    match t.2 {
        Some(loc) => "    "@ + t.0 + " "@ + t.1 + " "@ + loc + ";\n"@,
        None => "    "@ + t.0 + " "@ + t.1 + ";\n"@,
    }
}

/// The field lines of a synthesized record, one per scanned declaration, in
/// source order.
pub open spec fn field_lines(ds: Seq<(Seq<char>, Seq<char>, Option<Seq<char>>)>) -> Seq<char>
    decreases ds.len(),
{
    if ds.len() == 0 {
        Seq::empty()
    } else {
        field_line(ds[0]) + field_lines(ds.skip(1))
    }
}

/// The Vertex-input record synthesized from the vertex stage's attribute
/// declarations, together with the scanned (type, name, slot) triples.
pub open spec fn vertex_struct_spec(vertex: Seq<char>) -> Result<
    (Seq<char>, Seq<(Seq<char>, Seq<char>, Option<Seq<char>>)>),
    TranslateErrorView,
> {
    match scan_decls(lines_of(vertex), "attribute"@, DeclCategory::Attribute) {
        Ok(ds) => Ok(("struct Vertex {\n"@ + field_lines(ds) + "};\n"@, ds)),
        Err(e) => Err(e),
    }
}

/// The Stage-output record synthesized from the vertex stage's varying
/// declarations, led by the implicit clip-position field, together with the
/// scanned triples.
pub open spec fn raster_struct_spec(vertex: Seq<char>) -> Result<
    (Seq<char>, Seq<(Seq<char>, Seq<char>, Option<Seq<char>>)>),
    TranslateErrorView,
> {
    match scan_decls(lines_of(vertex), "varying"@, DeclCategory::Varying) {
        Ok(ds) => Ok(
            (
                "struct RasterizerData {\n    float4 position [[position]];\n"@ + field_lines(ds)
                    + "};\n"@,
                ds,
            ),
        ),
        Err(e) => Err(e),
    }
}

/// The (name, type) pairs of scanned declarations, in source order.
pub open spec fn name_type_pairs(ds: Seq<(Seq<char>, Seq<char>, Option<Seq<char>>)>) -> Seq<
    (Seq<char>, Seq<char>),
> {
    ds.map_values(|t: (Seq<char>, Seq<char>, Option<Seq<char>>)| (t.1, t.0))
}

/// The names of scanned declarations, in source order.
pub open spec fn names_of(ds: Seq<(Seq<char>, Seq<char>, Option<Seq<char>>)>) -> Seq<Seq<char>> {
    ds.map_values(|t: (Seq<char>, Seq<char>, Option<Seq<char>>)| t.1)
}

/// Builds the field lines of a synthesized record.
pub(crate) fn field_lines_chars(ds: &Vec<Decl>) -> (r: Vec<char>)
    ensures
        r@ == field_lines(decls_view(ds@)),
{
    let ghost dv = decls_view(ds@);
    let mut out: Vec<char> = Vec::new();
    let mut j: usize = 0;
    proof {
        assert(dv.skip(0) =~~= dv);
        assert(out@ =~= Seq::<char>::empty());
    }
    while j < ds.len()
        invariant
            j <= ds.len(),
            dv == decls_view(ds@),
            dv.len() == ds@.len(),
            field_lines(dv) == out@ + field_lines(dv.skip(j as int)),
        decreases ds.len() - j,
    {
        proof {
            assert(dv.skip(j as int)[0] == dv[j as int]);
            assert(dv.skip(j as int).skip(1) =~~= dv.skip(j + 1));
            assert(dv[j as int] == ds@[j as int]@);
        }
        let d = &ds[j];
        let ghost out0 = out@;
        append_str(&mut out, "    ");
        append_chars(&mut out, &d.ty);
        append_str(&mut out, " ");
        append_chars(&mut out, &d.name);
        match &d.loc {
            Option::Some(loc) => {
                append_str(&mut out, " ");
                append_chars(&mut out, loc);
            },
            Option::None => {},
        }
        append_str(&mut out, ";\n");
        proof {
            assert(out@ =~= out0 + field_line(dv[j as int]));
            assert(out0 + (field_line(dv[j as int]) + field_lines(dv.skip(j + 1))) =~= out@
                + field_lines(dv.skip(j + 1)));
        }
        j = j + 1;
    }
    proof {
        assert(dv.skip(dv.len() as int) =~~= Seq::<(Seq<char>, Seq<char>, Option<Seq<char>>)>::empty());
        assert(out@ + Seq::<char>::empty() =~= out@);
    }
    out
}

/// Emits the Vertex-input record from the vertex stage's attribute
/// declarations and returns the attributes as (name, type) pairs in source
/// order. A malformed attribute declaration refuses the whole record and
/// leaves the buffer untouched.
pub fn emit_vertex_struct(processed: &mut String, vertex: &str) -> (r: Result<
    Vec<(String, String)>,
    TranslateError,
>)
    ensures
        ({
            let sr = vertex_struct_spec(vertex@);
            match r {
                Ok(attrs) => sr matches Ok(p) && final(processed)@ == old(processed)@ + p.0
                    && table_view_str(attrs@) == name_type_pairs(p.1),
                Err(e) => sr == Err::<(Seq<char>, Seq<(Seq<char>, Seq<char>, Option<Seq<char>>)>), _>(e@)
                    && final(processed)@ == old(processed)@,
            }
        }),
{
    let vv = chars_of(vertex);
    let lines = lines_chars(&vv);
    let kw = chars_of("attribute");
    match scan_decls_chars(&lines, &kw, DeclCategory::Attribute) {
        Err(e) => Err(e),
        Ok(ds) => {
            let mut text = chars_of("struct Vertex {\n");
            let f = field_lines_chars(&ds);
            append_chars(&mut text, &f);
            append_str(&mut text, "};\n");
            let s = string_from_chars(&text);
            processed.append(s.as_str());
            let ghost dv = decls_view(ds@);
            let mut attrs: Vec<(String, String)> = Vec::new();
            let mut j: usize = 0;
            while j < ds.len()
                invariant
                    j <= ds.len(),
                    dv == decls_view(ds@),
                    dv.len() == ds@.len(),
                    attrs@.len() == j,
                    table_view_str(attrs@) == name_type_pairs(dv).subrange(0, j as int),
                decreases ds.len() - j,
            {
                let name = string_from_chars(&ds[j].name);
                let ty = string_from_chars(&ds[j].ty);
                let ghost attrs0 = attrs@;
                attrs.push((name, ty));
                j = j + 1;
                proof {
                    assert(attrs@ == attrs0.push((name, ty)));
                    assert(dv[j - 1] == ds@[j - 1]@);
                    assert forall|k: int| 0 <= k < j implies table_view_str(attrs@)[k]
                        == name_type_pairs(dv).subrange(0, j as int)[k] by {
                        if k < j - 1 {
                            assert(attrs@[k] == attrs0[k]);
                            assert(table_view_str(attrs0)[k] == name_type_pairs(dv).subrange(
                                0,
                                j - 1,
                            )[k]);
                        } else {
                            assert(attrs@[k] == (name, ty));
                        }
                    }
                    assert(table_view_str(attrs@) =~= name_type_pairs(dv).subrange(0, j as int));
                }
            }
            proof {
                assert(name_type_pairs(dv).subrange(0, dv.len() as int) =~= name_type_pairs(dv));
            }
            Ok(attrs)
        },
    }
}

/// Emits the Stage-output record: the implicit clip-position field, then one
/// field per varying declaration of the vertex stage; returns the varying
/// names in source order. A malformed varying declaration refuses the whole
/// record and leaves the buffer untouched.
pub fn emit_rasterizer_data_struct(processed: &mut String, vertex: &str) -> (r: Result<
    Vec<String>,
    TranslateError,
>)
    ensures
        ({
            let sr = raster_struct_spec(vertex@);
            match r {
                Ok(outs) => sr matches Ok(p) && final(processed)@ == old(processed)@ + p.0
                    && outs.deep_view() == names_of(p.1),
                Err(e) => sr == Err::<(Seq<char>, Seq<(Seq<char>, Seq<char>, Option<Seq<char>>)>), _>(e@)
                    && final(processed)@ == old(processed)@,
            }
        }),
{
    let vv = chars_of(vertex);
    let lines = lines_chars(&vv);
    let kw = chars_of("varying");
    match scan_decls_chars(&lines, &kw, DeclCategory::Varying) {
        Err(e) => Err(e),
        Ok(ds) => {
            let mut text = chars_of("struct RasterizerData {\n    float4 position [[position]];\n");
            let f = field_lines_chars(&ds);
            append_chars(&mut text, &f);
            append_str(&mut text, "};\n");
            let s = string_from_chars(&text);
            processed.append(s.as_str());
            let ghost dv = decls_view(ds@);
            let mut outs: Vec<String> = Vec::new();
            let mut j: usize = 0;
            while j < ds.len()
                invariant
                    j <= ds.len(),
                    dv == decls_view(ds@),
                    dv.len() == ds@.len(),
                    outs@.len() == j,
                    outs.deep_view() == names_of(dv).subrange(0, j as int),
                decreases ds.len() - j,
            {
                let name = string_from_chars(&ds[j].name);
                let ghost outs0 = outs;
                outs.push(name);
                j = j + 1;
                proof {
                    lemma_deep_push_str(outs0, outs, name);
                    assert(dv[j - 1] == ds@[j - 1]@);
                    assert(outs.deep_view() =~= names_of(dv).subrange(0, j as int));
                }
            }
            proof {
                assert(names_of(dv).subrange(0, dv.len() as int) =~= names_of(dv));
            }
            Ok(outs)
        },
    }
}

} // verus!
