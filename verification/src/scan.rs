//! The declaration scanner: picks declaration lines of one category out of a
//! shader stage's source and extracts (type, name, slot) triples, and builds
//! the fragment stage's sampler-name-to-sampler-type table.

use vstd::prelude::*;
use crate::mapper::{map_types, map_types_chars};
use crate::text::{
    replace_all, split_char, contains_seq, replace_chars, split_chars, contains_chars, chars_of,
    string_from_chars, copy_chars, lemma_deep_index, lines_of, lines_chars,
};
use crate::types::{DeclCategory, TranslateError, TranslateErrorView};

verus! {

/// One scanned declaration: its mapped type, its name, and its slot token,
/// if the declaration carries one.
pub struct Decl {
    pub ty: Vec<char>,
    pub name: Vec<char>,
    pub loc: Option<Vec<char>>,
}

impl View for Decl {
    type V = (Seq<char>, Seq<char>, Option<Seq<char>>);

    open spec fn view(&self) -> (Seq<char>, Seq<char>, Option<Seq<char>>) {
        (
            self.ty@,
            self.name@,
            match self.loc {
                Some(l) => Some(l@),
                None => None,
            },
        )
    }
}

/// The views of a sequence of scanned declarations.
pub open spec fn decls_view(ds: Seq<Decl>) -> Seq<(Seq<char>, Seq<char>, Option<Seq<char>>)> {
    ds.map_values(|d: Decl| d@)
}

/// The views of a sampler table held in character vectors.
pub open spec fn table_view(t: Seq<(Vec<char>, Vec<char>)>) -> Seq<(Seq<char>, Seq<char>)> {
    t.map_values(|p: (Vec<char>, Vec<char>)| (p.0@, p.1@))
}

/// The views of a sampler table held in strings.
pub open spec fn table_view_str(t: Seq<(String, String)>) -> Seq<(Seq<char>, Seq<char>)> {
    t.map_values(|p: (String, String)| (p.0@, p.1@))
}

/// The whitespace tokens of a declaration line, after type mapping and
/// removal of the statement terminator.
pub open spec fn decl_tokens(l: Seq<char>) -> Seq<Seq<char>> {
    split_char(replace_all(map_types(l), ";"@, ""@), ' ')
}

/// A declaration line splits into the expected shape: at least a category
/// keyword, a non-empty type token and a non-empty name token.
pub open spec fn well_formed_decl(l: Seq<char>) -> bool {
    let toks = decl_tokens(l);
    &&& toks.len() >= 3
    &&& toks[1].len() > 0
    &&& toks[2].len() > 0
}

/// The (type, name, slot) triple of a well-formed declaration line; the
/// slot is the fourth token where the declaration carries one.
pub open spec fn decl_triple(l: Seq<char>) -> (Seq<char>, Seq<char>, Option<Seq<char>>) {
    let toks = decl_tokens(l);
    (
        toks[1],
        toks[2],
        if toks.len() >= 4 && toks[3].len() > 0 {
            Some(toks[3])
        } else {
            None
        },
    )
}

/// Scans the lines `ls` for declarations of the category marked by the
/// keyword `kw`, in source order; the first line that contains the keyword
/// but does not split into the expected shape is a malformed-declaration
/// error.
pub open spec fn scan_decls(ls: Seq<Seq<char>>, kw: Seq<char>, cat: DeclCategory) -> Result<
    Seq<(Seq<char>, Seq<char>, Option<Seq<char>>)>,
    TranslateErrorView,
>
    decreases ls.len(),
{
    if ls.len() == 0 {
        Ok(Seq::empty())
    } else if !contains_seq(ls[0], kw) {
        scan_decls(ls.skip(1), kw, cat)
    } else if !well_formed_decl(ls[0]) {
        Err(TranslateErrorView::MalformedDeclaration { line: ls[0], category: cat })
    } else {
        match scan_decls(ls.skip(1), kw, cat) {
            Ok(r) => Ok(seq![decl_triple(ls[0])] + r),
            Err(e) => Err(e),
        }
    }
}

/// Scans declaration lines of one category out of the given lines.
pub fn scan_decls_chars(lines: &Vec<Vec<char>>, kw: &Vec<char>, cat: DeclCategory) -> (r: Result<
    Vec<Decl>,
    TranslateError,
>)
    ensures
        ({
            let sr = scan_decls(lines.deep_view(), kw@, cat);
            match r {
                Ok(ds) => sr == Ok::<_, TranslateErrorView>(decls_view(ds@)),
                Err(e) => sr == Err::<Seq<(Seq<char>, Seq<char>, Option<Seq<char>>)>, _>(e@),
            }
        }),
{
    let ghost ls = lines.deep_view();
    let mut acc: Vec<Decl> = Vec::new();
    let mut i: usize = 0;
    proof {
        assert(ls.skip(0) =~~= ls);
        assert(decls_view(acc@) =~~= Seq::<(Seq<char>, Seq<char>, Option<Seq<char>>)>::empty());
    }
    while i < lines.len()
        invariant
            i <= lines.len(),
            ls == lines.deep_view(),
            ({
                let whole = scan_decls(ls, kw@, cat);
                let rest = scan_decls(ls.skip(i as int), kw@, cat);
                match rest {
                    Ok(r) => whole == Ok::<_, TranslateErrorView>(decls_view(acc@) + r),
                    Err(e) => whole == Err::<Seq<(Seq<char>, Seq<char>, Option<Seq<char>>)>, _>(e),
                }
            }),
        decreases lines.len() - i,
    {
        let line = &lines[i];
        proof {
            lemma_deep_index(lines, i as int);
            assert(ls.skip(i as int)[0] == ls[i as int]);
            assert(ls.skip(i as int).skip(1) =~~= ls.skip(i + 1));
        }
        if contains_chars(line, kw) {
            let mapped = map_types_chars(line);
            let semi = chars_of(";");
            let nothing = chars_of("");
            let cleaned = replace_chars(&mapped, &semi, &nothing);
            let toks = split_chars(&cleaned, ' ');
            proof {
                assert(toks.deep_view() == decl_tokens(ls[i as int]));
            }
            if toks.len() < 3 {
                return Err(
                    TranslateError::MalformedDeclaration {
                        line: string_from_chars(line),
                        category: cat,
                    },
                );
            }
            proof {
                lemma_deep_index(&toks, 1);
                lemma_deep_index(&toks, 2);
                if toks@.len() >= 4 {
                    lemma_deep_index(&toks, 3);
                }
            }
            if toks[1].len() == 0 || toks[2].len() == 0 {
                return Err(
                    TranslateError::MalformedDeclaration {
                        line: string_from_chars(line),
                        category: cat,
                    },
                );
            }
            let loc: Option<Vec<char>> = if toks.len() >= 4 && toks[3].len() > 0 {
                Some(copy_chars(&toks[3]))
            } else {
                None
            };
            let d = Decl { ty: copy_chars(&toks[1]), name: copy_chars(&toks[2]), loc };
            let ghost acc0 = acc@;
            acc.push(d);
            proof {
                assert(well_formed_decl(ls[i as int]));
                assert(d@ == decl_triple(ls[i as int]));
                assert(decls_view(acc@) =~~= decls_view(acc0).push(decl_triple(ls[i as int])));
                assert(forall|r: Seq<(Seq<char>, Seq<char>, Option<Seq<char>>)>|
                    decls_view(acc0) + (seq![decl_triple(ls[i as int])] + r) =~~= decls_view(acc@)
                        + r);
            }
        }
        i = i + 1;
    }
    proof {
        assert(ls.skip(ls.len() as int) =~~= Seq::<Seq<char>>::empty());
        assert(decls_view(acc@) + Seq::<(Seq<char>, Seq<char>, Option<Seq<char>>)>::empty() =~~= decls_view(
            acc@,
        ));
    }
    Ok(acc)
}

/// The sampler table scanned from the fragment stage's lines: each
/// sampler-uniform declaration contributes its sampler name (statement
/// terminator stripped) and its declared sampler-type spelling, in source
/// order.
pub open spec fn sampler_table_spec(ls: Seq<Seq<char>>) -> Result<
    Seq<(Seq<char>, Seq<char>)>,
    TranslateErrorView,
>
    decreases ls.len(),
{
    if ls.len() == 0 {
        Ok(Seq::empty())
    } else if !contains_seq(ls[0], "uniform sampler"@) {
        sampler_table_spec(ls.skip(1))
    } else if split_char(ls[0], ' ').len() < 3 {
        Err(
            TranslateErrorView::MalformedDeclaration {
                line: ls[0],
                category: DeclCategory::Sampler,
            },
        )
    } else {
        let toks = split_char(ls[0], ' ');
        let entry = (replace_all(toks[2], ";"@, ""@), toks[1]);
        match sampler_table_spec(ls.skip(1)) {
            Ok(r) => Ok(seq![entry] + r),
            Err(e) => Err(e),
        }
    }
}

/// Scans the sampler table out of the fragment stage's lines.
pub fn sampler_table_chars(lines: &Vec<Vec<char>>) -> (r: Result<
    Vec<(Vec<char>, Vec<char>)>,
    TranslateError,
>)
    ensures
        ({
            let sr = sampler_table_spec(lines.deep_view());
            match r {
                Ok(t) => sr == Ok::<_, TranslateErrorView>(table_view(t@)),
                Err(e) => sr == Err::<Seq<(Seq<char>, Seq<char>)>, _>(e@),
            }
        }),
{
    let ghost ls = lines.deep_view();
    let kw = chars_of("uniform sampler");
    let mut acc: Vec<(Vec<char>, Vec<char>)> = Vec::new();
    let mut i: usize = 0;
    proof {
        assert(ls.skip(0) =~~= ls);
        assert(table_view(acc@)
            =~~= Seq::<(Seq<char>, Seq<char>)>::empty());
    }
    while i < lines.len()
        invariant
            i <= lines.len(),
            ls == lines.deep_view(),
            kw@ == "uniform sampler"@,
            ({
                let whole = sampler_table_spec(ls);
                let rest = sampler_table_spec(ls.skip(i as int));
                match rest {
                    Ok(r) => whole == Ok::<_, TranslateErrorView>(
                        table_view(acc@) + r,
                    ),
                    Err(e) => whole == Err::<Seq<(Seq<char>, Seq<char>)>, _>(e),
                }
            }),
        decreases lines.len() - i,
    {
        let line = &lines[i];
        proof {
            lemma_deep_index(lines, i as int);
            assert(ls.skip(i as int)[0] == ls[i as int]);
            assert(ls.skip(i as int).skip(1) =~~= ls.skip(i + 1));
        }
        if contains_chars(line, &kw) {
            let toks = split_chars(line, ' ');
            proof {
                assert(toks.deep_view() == split_char(ls[i as int], ' '));
            }
            if toks.len() < 3 {
                return Err(
                    TranslateError::MalformedDeclaration {
                        line: string_from_chars(line),
                        category: DeclCategory::Sampler,
                    },
                );
            }
            proof {
                lemma_deep_index(&toks, 1);
                lemma_deep_index(&toks, 2);
            }
            let semi = chars_of(";");
            let nothing = chars_of("");
            let name = replace_chars(&toks[2], &semi, &nothing);
            let ty = copy_chars(&toks[1]);
            let ghost acc0 = acc@;
            acc.push((name, ty));
            proof {
                let ghost entry = (replace_all(split_char(ls[i as int], ' ')[2], ";"@, ""@),
                    split_char(ls[i as int], ' ')[1]);
                assert(table_view(acc@) =~~= table_view(acc0).push(entry));
                assert(forall|r: Seq<(Seq<char>, Seq<char>)>|
                    table_view(acc0) + (seq![entry] + r)
                        =~~= table_view(acc@) + r);
            }
        }
        i = i + 1;
    }
    proof {
        assert(ls.skip(ls.len() as int) =~~= Seq::<Seq<char>>::empty());
        assert(table_view(acc@) + Seq::<
            (Seq<char>, Seq<char>),
        >::empty() =~~= table_view(acc@));
    }
    Ok(acc)
}

/// Builds the sampler table of the fragment stage: a mapping, in source
/// order, from each declared sampler name to its sampler-type spelling.
pub fn collect_texture_types(fragment: &str) -> (r: Result<
    Vec<(String, String)>,
    TranslateError,
>)
    ensures
        ({
            let sr = sampler_table_spec(lines_of(fragment@));
            match r {
                Ok(t) => sr == Ok::<_, TranslateErrorView>(table_view_str(t@)),
                Err(e) => sr == Err::<Seq<(Seq<char>, Seq<char>)>, _>(e@),
            }
        }),
{
    let fv = chars_of(fragment);
    let lines = lines_chars(&fv);
    match sampler_table_chars(&lines) {
        Ok(t) => {
            let mut out: Vec<(String, String)> = Vec::new();
            let mut i: usize = 0;
            while i < t.len()
                invariant
                    i <= t.len(),
                    table_view_str(out@) == table_view(t@).subrange(0, i as int),
                    out@.len() == i,
                decreases t.len() - i,
            {
                let name = string_from_chars(&t[i].0);
                let ty = string_from_chars(&t[i].1);
                let ghost out0 = out@;
                out.push((name, ty));
                i = i + 1;
                proof {
                    let sv = table_view_str(out@);
                    let tv = table_view(t@);
                    assert(out@ == out0.push((name, ty)));
                    assert(out0.len() == i - 1);
                    assert forall|k: int| 0 <= k < i implies sv[k] == tv.subrange(0, i as int)[k]
                    by {
                        if k < i - 1 {
                            assert(out@[k] == out0[k]);
                            assert(table_view_str(out0)[k]
                                == tv.subrange(0, i - 1)[k]);
                        } else {
                            assert(out@[k] == (name, ty));
                        }
                    }
                    assert(sv =~= tv.subrange(0, i as int));
                }
            }
            proof {
                assert(table_view_str(out@) =~~= table_view(t@));
            }
            Ok(out)
        },
        Err(e) => Err(e),
    }
}

} // verus!
