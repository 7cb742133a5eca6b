//! The generator of the two GUID source variants from one template, and the
//! check that tells whether the files on disk were stale.

use vstd::prelude::*;
use crate::replace::{
    contains_seq, isolates, lemma_replaced_keeps_absent, lemma_replaced_removes, occurs_at,
    replace_all, replaced,
};

verus! {

/// The values substituted into the template for one variant.
#[derive(Debug)]
pub struct Replacements {
    /// The struct's name.
    pub name: String,
    /// The contents of its `repr` attribute.
    pub repr: String,
    /// The name of the other variant's struct.
    pub other: String,
    /// The doc comment text, quotes included.
    pub doc: String,
}

/// The generated files together with whether either one differed from what
/// was on disk before.
#[derive(Debug)]
pub struct GeneratedGuids {
    pub aligned: String,
    pub unaligned: String,
    pub changed: bool,
}

pub open spec fn token_name() -> Seq<char> {
    "VAR_STRUCT_NAME"@
}

pub open spec fn token_repr() -> Seq<char> {
    "VAR_STRUCT_REPR"@
}

pub open spec fn token_other() -> Seq<char> {
    "VAR_OTHER_STRUCT_NAME"@
}

pub open spec fn token_doc() -> Seq<char> {
    "VAR_STRUCT_DOC"@
}

/// The line, and the blank line after it, that open every generated file.
pub open spec fn header() -> Seq<char> {
    "// This file is autogenerated, do not edit.\n\n"@
}

pub open spec fn aligned_name() -> Seq<char> {
    "AlignedGuid"@
}

pub open spec fn aligned_repr() -> Seq<char> {
    "C, align(8)"@
}

pub open spec fn aligned_doc() -> Seq<char> {
    "\"Globally-unique identifier (8-byte aligned).\n\nThe format is described in Appendix A of the UEFI\nSpecification. Note that the first three fields are little-endian.\n\nThis type is compatible with the `EFI_GUID` type, which is specified\nto be 8-byte aligned.\""@
}

pub open spec fn unaligned_name() -> Seq<char> {
    "Guid"@
}

pub open spec fn unaligned_repr() -> Seq<char> {
    "C"@
}

pub open spec fn unaligned_doc() -> Seq<char> {
    "\"Globally-unique identifier (1-byte aligned).\n\nThe format is described in Appendix A of the UEFI\nSpecification. Note that the first three fields are little-endian.\""@
}

impl Replacements {
    /// The values of the 8-byte aligned variant.
    pub open spec fn is_aligned(&self) -> bool {
        &&& self.name@ == aligned_name()
        &&& self.repr@ == aligned_repr()
        &&& self.other@ == unaligned_name()
        &&& self.doc@ == aligned_doc()
    }

    /// The values of the 1-byte aligned variant.
    pub open spec fn is_unaligned(&self) -> bool {
        &&& self.name@ == unaligned_name()
        &&& self.repr@ == unaligned_repr()
        &&& self.other@ == aligned_name()
        &&& self.doc@ == unaligned_doc()
    }
}

/// The template with the four tokens replaced in turn: name, repr, other
/// name, doc.
pub open spec fn substituted(
    template: Seq<char>,
    name: Seq<char>,
    repr: Seq<char>,
    other: Seq<char>,
    doc: Seq<char>,
) -> Seq<char> {
    replaced(
        replaced(replaced(replaced(template, token_name(), name), token_repr(), repr), token_other(), other),
        token_doc(),
        doc,
    )
}

/// The full contents of a generated file.
pub open spec fn generated(template: Seq<char>, r: Replacements) -> Seq<char> {
    header() + substituted(template, r.name@, r.repr@, r.other@, r.doc@)
}

/// The contents of the 8-byte aligned file.
pub open spec fn generated_aligned(template: Seq<char>) -> Seq<char> {
    header() + substituted(template, aligned_name(), aligned_repr(), unaligned_name(), aligned_doc())
}

/// The contents of the 1-byte aligned file.
pub open spec fn generated_unaligned(template: Seq<char>) -> Seq<char> {
    header() + substituted(template, unaligned_name(), unaligned_repr(), aligned_name(), unaligned_doc())
}

/// Drift: at least one file on disk differs from its freshly generated text.
pub open spec fn drifted(
    old_aligned: Seq<char>,
    new_aligned: Seq<char>,
    old_unaligned: Seq<char>,
    new_unaligned: Seq<char>,
) -> bool {
    old_aligned != new_aligned || old_unaligned != new_unaligned
}

/// No placeholder token occurs in `s`.
pub open spec fn lacks_tokens(s: Seq<char>) -> bool {
    &&& !contains_seq(s, token_name())
    &&& !contains_seq(s, token_repr())
    &&& !contains_seq(s, token_other())
    &&& !contains_seq(s, token_doc())
}

/// The 1-byte aligned rendering after its first two replacements.
pub open spec fn unaligned_after_repr(template: Seq<char>) -> Seq<char> {
    replaced(replaced(template, token_name(), unaligned_name()), token_repr(), unaligned_repr())
}

/// None of the substituted values can overlap a placeholder token in the
/// text around it, except the 1-byte variant's `repr`, "C".
proof fn lemma_values_isolate_tokens()
    ensures
        isolates(token_name(), aligned_name()),
        isolates(token_name(), unaligned_name()),
        isolates(token_name(), aligned_doc()),
        isolates(token_name(), unaligned_doc()),
        !header().contains(token_name()[0]),
        isolates(token_repr(), aligned_name()),
        isolates(token_repr(), unaligned_name()),
        isolates(token_repr(), aligned_doc()),
        isolates(token_repr(), unaligned_doc()),
        !header().contains(token_repr()[0]),
        isolates(token_other(), aligned_name()),
        isolates(token_other(), unaligned_name()),
        isolates(token_other(), aligned_doc()),
        isolates(token_other(), unaligned_doc()),
        !header().contains(token_other()[0]),
        isolates(token_doc(), aligned_doc()),
        isolates(token_doc(), unaligned_doc()),
        !header().contains(token_doc()[0]),
        isolates(token_name(), aligned_repr()),
        isolates(token_repr(), aligned_repr()),
{
    reveal_strlit("VAR_STRUCT_NAME");
    reveal_strlit("VAR_STRUCT_REPR");
    reveal_strlit("VAR_OTHER_STRUCT_NAME");
    reveal_strlit("VAR_STRUCT_DOC");
    reveal_strlit("// This file is autogenerated, do not edit.\n\n");
    reveal_strlit("AlignedGuid");
    reveal_strlit("C, align(8)");
    reveal_strlit("Guid");
    reveal_strlit(
        "\"Globally-unique identifier (8-byte aligned).\n\nThe format is described in Appendix A of the UEFI\nSpecification. Note that the first three fields are little-endian.\n\nThis type is compatible with the `EFI_GUID` type, which is specified\nto be 8-byte aligned.\"",
    );
    reveal_strlit(
        "\"Globally-unique identifier (1-byte aligned).\n\nThe format is described in Appendix A of the UEFI\nSpecification. Note that the first three fields are little-endian.\"",
    );
    assert(!token_name().contains(aligned_name()[1]));
    assert(!token_repr().contains(aligned_name()[1]));
    assert(!token_other().contains(aligned_name()[1]));
    assert(!token_name().contains(aligned_repr()[1]));
    assert(!token_repr().contains(aligned_repr()[1]));
}

/// An occurrence of `t` in `a + b` that does not lie in `b` would start
/// inside `a`.
proof fn lemma_absent_after_prefix(a: Seq<char>, b: Seq<char>, t: Seq<char>)
    requires
        t.len() > 0,
        !a.contains(t[0]),
        !contains_seq(b, t),
    ensures
        !contains_seq(a + b, t),
{
    if contains_seq(a + b, t) {
        let j = choose|j: int| occurs_at(a + b, t, j);
        if j < a.len() {
            assert((a + b).subrange(j, j + t.len())[0] == t[0]);
            assert(a.contains(t[0]));
        } else {
            assert(b.subrange(j - a.len(), j - a.len() + t.len()) =~= (a + b).subrange(j, j + t.len()));
            assert(occurs_at(b, t, j - a.len()));
        }
    }
}

/// The header of a generated file keeps a body free of placeholder tokens
/// free of them.
proof fn lemma_header_adds_no_token(body: Seq<char>)
    requires
        lacks_tokens(body),
    ensures
        lacks_tokens(header() + body),
{
    lemma_values_isolate_tokens();
    lemma_absent_after_prefix(header(), body, token_name());
    lemma_absent_after_prefix(header(), body, token_repr());
    lemma_absent_after_prefix(header(), body, token_other());
    lemma_absent_after_prefix(header(), body, token_doc());
}

/// For every template, the 8-byte aligned file holds no placeholder token.
pub proof fn lemma_aligned_resolves_tokens(template: Seq<char>)
    ensures
        lacks_tokens(generated_aligned(template)),
{
    lemma_values_isolate_tokens();
    let s1 = replaced(template, token_name(), aligned_name());
    let s2 = replaced(s1, token_repr(), aligned_repr());
    let s3 = replaced(s2, token_other(), unaligned_name());
    let s4 = replaced(s3, token_doc(), aligned_doc());
    lemma_replaced_removes(template, token_name(), aligned_name());
    lemma_replaced_removes(s1, token_repr(), aligned_repr());
    lemma_replaced_keeps_absent(s1, token_repr(), aligned_repr(), token_name());
    lemma_replaced_removes(s2, token_other(), unaligned_name());
    lemma_replaced_keeps_absent(s2, token_other(), unaligned_name(), token_name());
    lemma_replaced_keeps_absent(s2, token_other(), unaligned_name(), token_repr());
    lemma_replaced_removes(s3, token_doc(), aligned_doc());
    lemma_replaced_keeps_absent(s3, token_doc(), aligned_doc(), token_name());
    lemma_replaced_keeps_absent(s3, token_doc(), aligned_doc(), token_repr());
    lemma_replaced_keeps_absent(s3, token_doc(), aligned_doc(), token_other());
    lemma_header_adds_no_token(s4);
}

/// The 1-byte aligned file holds no placeholder token whenever its first two
/// replacements left neither the name token nor the repr token behind. They
/// can: its repr value "C" may complete a token with the text around it, as
/// in a template `VAR_STRUVAR_STRUCT_REPRT_NAME`.
pub proof fn lemma_unaligned_resolves_tokens(template: Seq<char>)
    requires
        !contains_seq(unaligned_after_repr(template), token_name()),
        !contains_seq(unaligned_after_repr(template), token_repr()),
    ensures
        lacks_tokens(generated_unaligned(template)),
{
    lemma_values_isolate_tokens();
    let s2 = unaligned_after_repr(template);
    let s3 = replaced(s2, token_other(), aligned_name());
    let s4 = replaced(s3, token_doc(), unaligned_doc());
    lemma_replaced_removes(s2, token_other(), aligned_name());
    lemma_replaced_keeps_absent(s2, token_other(), aligned_name(), token_name());
    lemma_replaced_keeps_absent(s2, token_other(), aligned_name(), token_repr());
    lemma_replaced_removes(s3, token_doc(), unaligned_doc());
    lemma_replaced_keeps_absent(s3, token_doc(), unaligned_doc(), token_name());
    lemma_replaced_keeps_absent(s3, token_doc(), unaligned_doc(), token_repr());
    lemma_replaced_keeps_absent(s3, token_doc(), unaligned_doc(), token_other());
    lemma_header_adds_no_token(s4);
}

/// Each variant names the other's struct as its counterpart.
pub proof fn lemma_variants_name_each_other(aligned: Replacements, unaligned: Replacements)
    requires
        aligned.is_aligned(),
        unaligned.is_unaligned(),
    ensures
        aligned.other@ == unaligned.name@,
        unaligned.other@ == aligned.name@,
{
}

/// Rendering depends on the template and the substituted values alone: the
/// same inputs always give the same text.
pub proof fn lemma_rendering_is_deterministic(template: Seq<char>, r1: Replacements, r2: Replacements)
    requires
        r1.name@ == r2.name@,
        r1.repr@ == r2.repr@,
        r1.other@ == r2.other@,
        r1.doc@ == r2.doc@,
    ensures
        generated(template, r1) == generated(template, r2),
{
}

/// Drift is a predicate on the four texts: when the files hold what the
/// previous run generated, generating again from the same template reports
/// no drift.
pub proof fn lemma_second_run_reports_no_drift(template: Seq<char>)
    ensures
        !drifted(
            generated_aligned(template),
            generated_aligned(template),
            generated_unaligned(template),
            generated_unaligned(template),
        ),
        forall|oa: Seq<char>, ou: Seq<char>|
            drifted(oa, generated_aligned(template), ou, generated_unaligned(template)) <==> (oa
                != generated_aligned(template) || ou != generated_unaligned(template)),
{
}

pub fn aligned_replacements() -> (r: Replacements)
    ensures
        r.is_aligned(),
{
    Replacements {
        name: String::from_str("AlignedGuid"),
        repr: String::from_str("C, align(8)"),
        other: String::from_str("Guid"),
        doc: String::from_str(
            "\"Globally-unique identifier (8-byte aligned).\n\nThe format is described in Appendix A of the UEFI\nSpecification. Note that the first three fields are little-endian.\n\nThis type is compatible with the `EFI_GUID` type, which is specified\nto be 8-byte aligned.\"",
        ),
    }
}

pub fn unaligned_replacements() -> (r: Replacements)
    ensures
        r.is_unaligned(),
{
    Replacements {
        name: String::from_str("Guid"),
        repr: String::from_str("C"),
        other: String::from_str("AlignedGuid"),
        doc: String::from_str(
            "\"Globally-unique identifier (1-byte aligned).\n\nThe format is described in Appendix A of the UEFI\nSpecification. Note that the first three fields are little-endian.\"",
        ),
    }
}

/// Renders `template` with the values of `r`, behind the autogenerated header.
pub fn gen_code(template: &str, r: &Replacements) -> (out: String)
    ensures
        out@ == generated(template@, *r),
{
    proof {
        reveal_strlit("VAR_STRUCT_NAME");
        reveal_strlit("VAR_STRUCT_REPR");
        reveal_strlit("VAR_OTHER_STRUCT_NAME");
        reveal_strlit("VAR_STRUCT_DOC");
    }
    let a = replace_all(template, "VAR_STRUCT_NAME", r.name.as_str());
    let b = replace_all(a.as_str(), "VAR_STRUCT_REPR", r.repr.as_str());
    let c = replace_all(b.as_str(), "VAR_OTHER_STRUCT_NAME", r.other.as_str());
    let d = replace_all(c.as_str(), "VAR_STRUCT_DOC", r.doc.as_str());
    let mut out = String::from_str("// This file is autogenerated, do not edit.\n\n");
    out.append(d.as_str());
    out
}

/// Whether either file on disk differs from its freshly generated text.
pub fn contents_changed(
    old_aligned: &str,
    new_aligned: &String,
    old_unaligned: &str,
    new_unaligned: &String,
) -> (r: bool)
    ensures
        r == drifted(old_aligned@, new_aligned@, old_unaligned@, new_unaligned@),
{
    let a = String::from_str(old_aligned);
    let u = String::from_str(old_unaligned);
    !(a == *new_aligned) || !(u == *new_unaligned)
}

/// Generates both variants from `template` and compares them with the
/// current file contents. Both contents are taken before anything is
/// written, so the caller can write the pair only after both were read.
pub fn gen_guids(template: &str, old_aligned: &str, old_unaligned: &str) -> (r: GeneratedGuids)
    ensures
        r.aligned@ == generated_aligned(template@),
        r.unaligned@ == generated_unaligned(template@),
        r.changed == drifted(old_aligned@, r.aligned@, old_unaligned@, r.unaligned@),
{
    let aligned = gen_code(template, &aligned_replacements());
    let unaligned = gen_code(template, &unaligned_replacements());
    let changed = contents_changed(old_aligned, &aligned, old_unaligned, &unaligned);
    GeneratedGuids { aligned, unaligned, changed }
}

} // verus!
