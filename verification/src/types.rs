//! The data model: shader-reflection metadata, declaration categories, and
//! the error type of the translator.

use vstd::prelude::*;

verus! {

/// The kind of a uniform variable, as the caller's reflection step reports
/// it. Only the scalar/vector float kinds and the 4x4 matrix kind can be
/// translated; the integer kinds are recognised but unsupported.
#[derive(Clone, Copy, Debug, PartialEq, Eq, Structural)]
pub enum UniformKind {
    Float1,
    Float2,
    Float3,
    Float4,
    Int1,
    Int2,
    Int3,
    Int4,
    Mat4,
}

/// One uniform variable of the shader: its source name and its kind.
#[derive(Clone, Debug)]
pub struct UniformDesc {
    pub name: String,
    pub kind: UniformKind,
}

/// Reflection metadata for one shader pair: the uniform block layout in
/// declaration order, and the bound texture names in binding order. The two
/// orders fix the buffer and texture/sampler slot indices.
#[derive(Clone, Debug)]
pub struct ShaderMeta {
    pub uniforms: Vec<UniformDesc>,
    pub images: Vec<String>,
}

/// The uniform block as name/kind pairs over character sequences.
pub open spec fn uniforms_seq(us: Seq<UniformDesc>) -> Seq<(Seq<char>, UniformKind)> {
    us.map_values(|u: UniformDesc| (u.name@, u.kind))
}

impl ShaderMeta {
    /// The uniform block as name/kind pairs over character sequences.
    pub open spec fn uniforms_view(&self) -> Seq<(Seq<char>, UniformKind)> {
        uniforms_seq(self.uniforms@)
    }

    /// The bound texture names as character sequences.
    pub open spec fn images_view(&self) -> Seq<Seq<char>> {
        self.images.deep_view()
    }
}

/// The category of a scanned declaration line.
#[derive(Clone, Copy, Debug, PartialEq, Eq, Structural)]
pub enum DeclCategory {
    Attribute,
    Varying,
    Sampler,
}

/// Why a translation was refused. Any of these aborts the whole call: no
/// partially rewritten shader text is ever produced.
#[derive(Clone, Debug)]
pub enum TranslateError {
    /// A uniform's kind lies outside the supported set.
    UnsupportedUniformKind { name: String },
    /// A sampler uniform's declared type is neither the 2-D nor the cube
    /// sampler.
    UnsupportedSamplerKind { name: String, sampler_type: String },
    /// A declaration line does not split into the expected token shape.
    MalformedDeclaration { line: String, category: DeclCategory },
}

/// The mathematical shape of a `TranslateError`.
pub enum TranslateErrorView {
    UnsupportedUniformKind { name: Seq<char> },
    UnsupportedSamplerKind { name: Seq<char>, sampler_type: Seq<char> },
    MalformedDeclaration { line: Seq<char>, category: DeclCategory },
}

impl View for TranslateError {
    type V = TranslateErrorView;

    open spec fn view(&self) -> TranslateErrorView {
        match self {
            TranslateError::UnsupportedUniformKind { name } => {
                TranslateErrorView::UnsupportedUniformKind { name: name@ }
            },
            TranslateError::UnsupportedSamplerKind { name, sampler_type } => {
                TranslateErrorView::UnsupportedSamplerKind {
                    name: name@,
                    sampler_type: sampler_type@,
                }
            },
            TranslateError::MalformedDeclaration { line, category } => {
                TranslateErrorView::MalformedDeclaration { line: line@, category: *category }
            },
        }
    }
}

impl TranslateError {
    /// A short description of the error, naming the offending input.
    pub fn describe(&self) -> String {
        match self {
            TranslateError::UnsupportedUniformKind { name } => {
                let mut s = String::new();
                s.append("unsupported uniform kind for uniform `");
                s.append(name.as_str());
                s.append("`");
                s
            },
            TranslateError::UnsupportedSamplerKind { name, sampler_type } => {
                let mut s = String::new();
                s.append("unsupported sampler type `");
                s.append(sampler_type.as_str());
                s.append("` for texture `");
                s.append(name.as_str());
                s.append("`");
                s
            },
            TranslateError::MalformedDeclaration { line, category } => {
                let mut s = String::new();
                s.append(
                    match category {
                        DeclCategory::Attribute => "malformed attribute declaration: `",
                        DeclCategory::Varying => "malformed varying declaration: `",
                        DeclCategory::Sampler => "malformed sampler declaration: `",
                    },
                );
                s.append(line.as_str());
                s.append("`");
                s
            },
        }
    }
}

} // verus!
