//! Markup-dialect conversion and font-face inspection, through the outside
//! crates that own those algorithms. Each conversion's result depends on the
//! input text alone, so it carries a name the callers' contracts share.

use vstd::prelude::*;

verus! {

pub uninterp spec fn typst_of_latex_doc(s: Seq<char>) -> Seq<char>;

pub uninterp spec fn latex_of_typst_doc(s: Seq<char>) -> Seq<char>;

pub uninterp spec fn typm_of_latex_eq(s: Seq<char>) -> Seq<char>;

pub uninterp spec fn latex_eq_of_typm(s: Seq<char>) -> Seq<char>;

pub uninterp spec fn cetz_of_tikz(s: Seq<char>) -> Seq<char>;

pub uninterp spec fn tikz_of_cetz(s: Seq<char>) -> Seq<char>;

pub uninterp spec fn faces_of(b: Seq<u8>) -> Seq<Seq<char>>;

/// Relies on tylax::latex_document_to_typst: a pure conversion of a whole
/// document, a function of the input text alone.
#[verifier::external_body]
pub fn latex_to_typst(code: &str) -> (r: String)
    ensures
        r@ == typst_of_latex_doc(code@),
{
    tylax::latex_document_to_typst(code)
}

/// Relies on tylax::typst_document_to_latex: a pure conversion of a whole
/// document, a function of the input text alone.
#[verifier::external_body]
pub fn typst_to_latex(code: &str) -> (r: String)
    ensures
        r@ == latex_of_typst_doc(code@),
{
    tylax::typst_document_to_latex(code)
}

/// Relies on tylax::latex_to_typst: a pure conversion of one equation, a
/// function of the input text alone.
#[verifier::external_body]
pub fn latexeq_to_typm(code: &str) -> (r: String)
    ensures
        r@ == typm_of_latex_eq(code@),
{
    tylax::latex_to_typst(code)
}

/// Relies on tylax::typst_to_latex: a pure conversion of one equation, a
/// function of the input text alone.
#[verifier::external_body]
pub fn typm_to_latexeq(code: &str) -> (r: String)
    ensures
        r@ == latex_eq_of_typm(code@),
{
    tylax::typst_to_latex(code)
}

/// Relies on tylax::tikz::convert_tikz_to_cetz: a pure conversion of one
/// picture, a function of the input text alone.
#[verifier::external_body]
pub fn tikz_to_cetz(code: &str) -> (r: String)
    ensures
        r@ == cetz_of_tikz(code@),
{
    tylax::tikz::convert_tikz_to_cetz(code)
}

/// Relies on tylax::tikz::convert_cetz_to_tikz: a pure conversion of one
/// picture, a function of the input text alone.
#[verifier::external_body]
pub fn cetz_to_tikz(code: &str) -> (r: String)
    ensures
        r@ == tikz_of_cetz(code@),
{
    tylax::tikz::convert_cetz_to_tikz(code)
}

/// Relies on typst::text::FontInfo::iter: face metadata is parsed from the
/// buffer bytes alone; this hands out one family name per face found,
/// inspecting without registering.
#[verifier::external_body]
pub fn get_font_info(buffer: &Vec<u8>) -> (r: Vec<String>)
    ensures
        r.deep_view() == faces_of(buffer@),
{
    typst::text::FontInfo::iter(buffer.as_slice()).map(|i| i.family.as_str().to_owned()).collect()
}

} // verus!
