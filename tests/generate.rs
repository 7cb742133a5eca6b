use xtask::generate::{
    aligned_replacements, contents_changed, gen_code, gen_guids, unaligned_replacements,
};
use xtask::replace::replace_all;

const HEADER: &str = "// This file is autogenerated, do not edit.\n\n";
const ALIGNED_DOC: &str = "\"Globally-unique identifier (8-byte aligned).\n\nThe format is described in Appendix A of the UEFI\nSpecification. Note that the first three fields are little-endian.\n\nThis type is compatible with the `EFI_GUID` type, which is specified\nto be 8-byte aligned.\"";
const UNALIGNED_DOC: &str = "\"Globally-unique identifier (1-byte aligned).\n\nThe format is described in Appendix A of the UEFI\nSpecification. Note that the first three fields are little-endian.\"";
const TOKENS: [&str; 4] =
    ["VAR_STRUCT_NAME", "VAR_STRUCT_REPR", "VAR_OTHER_STRUCT_NAME", "VAR_STRUCT_DOC"];

#[test]
fn replace_all_matches_std() {
    assert_eq!(replace_all("aXbXc", "X", "YY"), "aYYbYYc");
    assert_eq!(replace_all("aaa", "aa", "b"), "ba");
    assert_eq!(replace_all("", "x", "y"), "");
    assert_eq!(replace_all("abc", "abcd", "y"), "abc");
    assert_eq!(replace_all("héllo wörld", "ö", "o"), "héllo world");
    for (s, p, r) in [("xyxyx", "xyx", "-"), ("VAR_A VAR_AB", "VAR_A", "q"), ("aaaa", "a", "")] {
        assert_eq!(replace_all(s, p, r), s.replace(p, r));
    }
}

#[test]
fn profiles() {
    let a = aligned_replacements();
    let u = unaligned_replacements();
    assert_eq!(a.name, "AlignedGuid");
    assert_eq!(a.repr, "C, align(8)");
    assert_eq!(a.other, u.name);
    assert_eq!(u.other, a.name);
    assert_eq!(u.repr, "C");
    assert_eq!(a.doc, ALIGNED_DOC);
    assert_eq!(u.doc, UNALIGNED_DOC);
}

#[test]
fn each_token_once() {
    let template = "VAR_STRUCT_NAME|VAR_STRUCT_REPR|VAR_OTHER_STRUCT_NAME|VAR_STRUCT_DOC";
    let g = gen_guids(template, "", "");
    assert_eq!(
        g.aligned,
        format!("{}AlignedGuid|C, align(8)|Guid|{}", HEADER, ALIGNED_DOC)
    );
    assert_eq!(g.unaligned, format!("{}Guid|C|AlignedGuid|{}", HEADER, UNALIGNED_DOC));
    assert!(g.aligned.starts_with("// This file is autogenerated, do not edit.\n\n"));
    assert!(g.changed);
}

#[test]
fn stale_file_is_reported_and_regenerated() {
    let template = "#[repr(VAR_STRUCT_REPR)]\npub struct VAR_STRUCT_NAME;\n";
    let fresh = gen_guids(template, "", "");
    let g = gen_guids(template, "stale", &fresh.unaligned);
    assert!(g.changed);
    assert_eq!(g.aligned, format!("{}#[repr(C, align(8))]\npub struct AlignedGuid;\n", HEADER));
    assert_eq!(g.unaligned, fresh.unaligned);
    let g = gen_guids(template, &fresh.aligned, "stale");
    assert!(g.changed);
}

#[test]
fn second_run_reports_no_drift() {
    let template = "impl From<VAR_OTHER_STRUCT_NAME> for VAR_STRUCT_NAME {}\n";
    let first = gen_guids(template, "old", "old");
    assert!(first.changed);
    let second = gen_guids(template, &first.aligned, &first.unaligned);
    assert!(!second.changed);
    assert_eq!(second.aligned, first.aligned);
    assert_eq!(second.unaligned, first.unaligned);
}

#[test]
fn drift_predicate() {
    let a = "a".to_string();
    let u = "u".to_string();
    assert!(!contents_changed("a", &a, "u", &u));
    assert!(contents_changed("b", &a, "u", &u));
    assert!(contents_changed("a", &a, "v", &u));
    assert!(contents_changed("", &a, "", &u));
}

#[test]
fn rendering_is_repeatable() {
    let template = "/// VAR_STRUCT_DOC\nstruct VAR_STRUCT_NAME; // VAR_STRUCT_NAME\n";
    let r = aligned_replacements();
    assert_eq!(gen_code(template, &r), gen_code(template, &r));
    assert_eq!(
        gen_code(template, &unaligned_replacements()),
        format!("{}/// {}\nstruct Guid; // Guid\n", HEADER, UNALIGNED_DOC)
    );
}

#[test]
fn rendered_output_has_no_tokens() {
    let template = "VAR_STRUCT_NAME VAR_STRUCT_NAMEVAR_STRUCT_REPR VAR_OTHER_STRUCT_NAME_x VAR_STRUCT_DOCVAR_STRUCT_DO";
    let g = gen_guids(template, "", "");
    for t in TOKENS {
        assert!(!g.aligned.contains(t));
        assert!(!g.unaligned.contains(t));
    }
    assert!(g.aligned.contains("Guid"));
    assert!(g.unaligned.contains("AlignedGuid"));
}

#[test]
fn repr_c_can_complete_a_token() {
    let g = gen_guids("VAR_STRUVAR_STRUCT_REPRT_NAME", "", "");
    assert_eq!(g.unaligned, format!("{}VAR_STRUCT_NAME", HEADER));
    assert_eq!(g.aligned, format!("{}VAR_STRUC, align(8)T_NAME", HEADER));
}

#[test]
fn template_without_tokens_is_copied() {
    let g = gen_guids("plain text\n", "", "");
    assert_eq!(g.aligned, format!("{}plain text\n", HEADER));
    assert_eq!(g.unaligned, g.aligned);
}
