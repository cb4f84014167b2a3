use typst_facade::escape::escape_xml;
use typst_facade::numfmt::push_fixed3;
use typst_facade::overlay::{
    generate_text_layer_for_frame, Frame, FrameItem, Glyph, Group, Placed, TextRun,
};
use typst_facade::package::parse_package_key;
use typst_facade::text::chars_eq;
use typst_facade::theme::{replace_all, replace_first, splice_before_last};
use typst_facade::transform::{flip_y, pre_translate, translate, Transform};
use typst_facade::session::{effective_title, main_file_name, RenderFault, Typst};
use typst_facade::theme::assemble_artifact;
use typst_facade::world::{FileIdentity, World};
use typst_facade::convert::{get_font_info, latexeq_to_typm};

fn cs(s: &str) -> Vec<char> {
    s.chars().collect()
}

fn st(v: &[char]) -> String {
    v.iter().collect()
}

#[test]
fn escape_five_significant_characters() {
    let out = escape_xml(&cs("a&<>\"'z"));
    assert_eq!(st(&out), "a&amp;&lt;&gt;&quot;&apos;z");
}

#[test]
fn escape_plain_text_unchanged() {
    let out = escape_xml(&cs("hello world"));
    assert_eq!(st(&out), "hello world");
}

#[test]
fn fixed3_formatting() {
    let mut v: Vec<char> = Vec::new();
    push_fixed3(&mut v, 12345);
    assert_eq!(st(&v), "12.345");
    let mut v2: Vec<char> = Vec::new();
    push_fixed3(&mut v2, -500);
    assert_eq!(st(&v2), "-0.500");
    let mut v3: Vec<char> = Vec::new();
    push_fixed3(&mut v3, 0);
    assert_eq!(st(&v3), "0.000");
}

#[test]
fn transform_constructors_and_fold() {
    let t = translate(3, 4);
    assert_eq!(t.tx, 3);
    assert_eq!(t.ty, 4);
    assert_eq!(t.sx, 1000);
    let f = flip_y();
    assert_eq!(f.sy, -1000);
    let g = Transform { sx: 2000, ky: 0, kx: 0, sy: 2000, tx: 5, ty: 6 };
    let c = pre_translate(10, 20, &g);
    assert_eq!(c.tx, 15);
    assert_eq!(c.ty, 26);
    assert_eq!(c.sx, 2000);
}

#[test]
fn package_key_parses_four_segments() {
    let r = parse_package_key(&cs("@ns/pkg/1.2.3/a/b.typ")).unwrap();
    assert_eq!(st(&r.0.namespace), "ns");
    assert_eq!(st(&r.0.name), "pkg");
    assert_eq!(r.0.major, 1);
    assert_eq!(r.0.minor, 2);
    assert_eq!(r.0.patch, 3);
    assert_eq!(st(&r.1), "a/b.typ");
}

#[test]
fn package_key_rejects_three_segments() {
    assert!(parse_package_key(&cs("@ns/pkg/1.2.3")).is_none());
}

#[test]
fn package_key_rejects_non_numeric_version() {
    assert!(parse_package_key(&cs("@ns/pkg/1.x.3/lib.typ")).is_none());
    assert!(parse_package_key(&cs("ns/pkg/1.2.3/lib.typ")).is_none());
}

#[test]
fn package_key_preview_example() {
    let r = parse_package_key(&cs("@preview/x/0.1.0/lib.typ")).unwrap();
    assert_eq!(st(&r.0.namespace), "preview");
    assert_eq!(st(&r.0.name), "x");
    assert_eq!(r.0.major, 0);
    assert_eq!(r.0.minor, 1);
    assert_eq!(r.0.patch, 0);
    assert_eq!(st(&r.1), "lib.typ");
}

fn ident(path: &str) -> FileIdentity {
    FileIdentity { package: None, path: cs(path) }
}

#[test]
fn update_cold_then_fast_path() {
    let mut w = World::new();
    w.put_text(ident("other.typ"), cs("untouched"));
    // cold path: first-ever write under this identity
    w.update(ident("doc_1.typ"), cs("= One"));
    let got = w.get(&ident("doc_1.typ")).unwrap();
    assert_eq!(st(&got.1.unwrap()), "= One");
    // fast path: the identity resolves now, so repoint and replace in place
    w.update(ident("doc_1.typ"), cs("= Two"));
    let got2 = w.get(&ident("doc_1.typ")).unwrap();
    assert_eq!(st(&got2.1.unwrap()), "= Two");
    // the unrelated identity is untouched by either path
    let other = w.get(&ident("other.typ")).unwrap();
    assert_eq!(st(&other.1.unwrap()), "untouched");
}

#[test]
fn update_idempotent_content() {
    let mut w1 = World::new();
    w1.update(ident("a.typ"), cs("same"));
    let once = w1.get(&ident("a.typ")).unwrap().1.unwrap();
    w1.update(ident("a.typ"), cs("same"));
    let twice = w1.get(&ident("a.typ")).unwrap().1.unwrap();
    assert!(chars_eq(&once, &twice));
}

#[test]
fn replace_substitution() {
    let mut w = World::new();
    w.update(ident("m.typ"), cs("old"));
    w.replace(cs("new"));
    let got = w.get(&ident("m.typ")).unwrap();
    assert_eq!(st(&got.1.unwrap()), "new");
}

#[test]
fn theming_replaces_each_token_and_nothing_else() {
    let hay = cs("<a fill=\"#000000\"/><b stroke=\"#000000\"/><c fill=\"#000000\"/><d fill=\"#ff0000\"/>");
    let out = replace_all(&hay, &cs("#000000"), &cs("var(--typst-base-color)"));
    assert_eq!(
        st(&out),
        "<a fill=\"var(--typst-base-color)\"/><b stroke=\"var(--typst-base-color)\"/><c fill=\"var(--typst-base-color)\"/><d fill=\"#ff0000\"/>"
    );
}

#[test]
fn overshoot_rule_inserted_once() {
    let hay = cs("<svg class=\"x\"><g><svg class=\"y\"></svg></g></svg>");
    let out = replace_first(&hay, &cs("<svg class"), &cs("<svg style=\"overflow: visible;\" class"));
    assert_eq!(
        st(&out),
        "<svg style=\"overflow: visible;\" class=\"x\"><g><svg class=\"y\"></svg></g></svg>"
    );
}

#[test]
fn overlay_spliced_before_closing_root_tag() {
    let hay = cs("<svg><g></g></svg>");
    let out = splice_before_last(&hay, &cs("</svg>"), &cs("<text>t</text>"));
    assert_eq!(st(&out), "<svg><g></g><text>t</text></svg>");
}

#[test]
fn overlay_single_run_with_forced_and_plain_lengths() {
    let frame = Frame {
        items: vec![Placed {
            x: 10,
            y: 20,
            item: FrameItem::Text(TextRun {
                size: 12000,
                glyphs: vec![
                    Glyph { x_offset: 0, y_offset: 0, x_advance: 5000, y_advance: 0, text: cs("A") },
                    Glyph { x_offset: 100, y_offset: 0, x_advance: 0, y_advance: 0, text: cs("b") },
                ],
            }),
        }],
    };
    let out = generate_text_layer_for_frame(&frame);
    let mut expected = String::new();
    expected.push_str("<g transform=\"matrix(1.000,0.000,0.000,-1.000,0.010,0.020)\">");
    expected.push_str("<text fill=\"transparent\" font-size=\"12.000pt\" style=\"font-variant-ligatures: none\" dominant-baseline=\"alphabetic\">");
    expected.push_str("<tspan x=\"0.000\" y=\"0.000\" dx=\"0\" textLength=\"5.000\" lengthAdjust=\"spacingAndGlyphs\" style=\"user-select: all\">A</tspan>");
    expected.push_str("<tspan x=\"5.100\" y=\"0.000\" dx=\"0\" style=\"user-select: all\">b</tspan>");
    expected.push_str("</text>");
    expected.push_str("</g>");
    assert_eq!(st(&out), expected);
}

#[test]
fn overlay_nested_group_folds_position_into_translation() {
    let inner = Frame { items: vec![] };
    let frame = Frame {
        items: vec![Placed {
            x: 1,
            y: 2,
            item: FrameItem::Group(Group {
                transform: Transform { sx: 2000, ky: 0, kx: 0, sy: 2000, tx: 3, ty: 4 },
                frame: inner,
            }),
        }],
    };
    let out = generate_text_layer_for_frame(&frame);
    assert_eq!(st(&out), "<g transform=\"matrix(2.000,0.000,0.000,2.000,0.004,0.006)\"></g>");
}

#[test]
fn overlay_ignores_other_items() {
    let frame = Frame { items: vec![Placed { x: 0, y: 0, item: FrameItem::Other }] };
    let out = generate_text_layer_for_frame(&frame);
    assert_eq!(st(&out), "");
}

#[test]
fn overlay_escapes_glyph_text() {
    let frame = Frame {
        items: vec![Placed {
            x: 0,
            y: 0,
            item: FrameItem::Text(TextRun {
                size: 1000,
                glyphs: vec![Glyph {
                    x_offset: 0,
                    y_offset: 0,
                    x_advance: 2000,
                    y_advance: 0,
                    text: cs("<&>"),
                }],
            }),
        }],
    };
    let out = generate_text_layer_for_frame(&frame);
    assert!(st(&out).contains(">&lt;&amp;&gt;</tspan>"));
    assert!(!st(&out).contains("><&>"));
}

#[test]
fn converter_transforms_its_input() {
    let out = latexeq_to_typm("\\alpha + \\beta");
    assert_ne!(out, "\\alpha + \\beta");
}

#[test]
fn font_info_of_garbage_is_empty() {
    let faces = get_font_info(&vec![0u8, 1, 2, 3]);
    assert!(faces.is_empty());
}

#[test]
fn main_file_name_joins_kind_and_id() {
    assert_eq!(st(&main_file_name(&cs("body"), &cs("doc"))), "body_doc.typ");
}

#[test]
fn effective_title_prefers_content() {
    assert_eq!(st(&effective_title(Some(cs("Set by doc")), &cs("file.typ"))), "Set by doc");
    assert_eq!(st(&effective_title(None, &cs("file.typ"))), "file.typ");
}

#[test]
fn store_dispatches_packages_files_and_fonts() {
    let mut t = Typst::new();
    let fault = t.store(
        vec![vec![0u8, 1, 2]],
        vec![
            (cs("@preview/x/0.1.0/lib.typ"), b"#let v = 1".to_vec()),
            (cs("root.bin"), b"raw".to_vec()),
        ],
        vec![(cs("/main.typ"), cs("= Hi"))],
    );
    assert!(fault.is_none());
    let pkg = typst_facade::package::parse_package_key(&cs("@preview/x/0.1.0/lib.typ")).unwrap();
    let got = t.world.get(&FileIdentity { package: Some(pkg.0), path: pkg.1 }).unwrap();
    assert_eq!(got.0.unwrap(), b"#let v = 1".to_vec());
    let root = t.world.get(&ident("root.bin")).unwrap();
    assert_eq!(root.0.unwrap(), b"raw".to_vec());
    let text = t.world.get(&ident("/main.typ")).unwrap();
    assert_eq!(st(&text.1.unwrap()), "= Hi");
    assert_eq!(t.world.fonts.len(), 1);
    let refs = t.world.list_packages();
    assert_eq!(refs.len(), 1);
    assert_eq!(st(&refs[0].namespace), "preview");
}

#[test]
fn store_rejects_malformed_key_without_applying() {
    let mut t = Typst::new();
    let fault = t.store(
        vec![],
        vec![
            (cs("good.bin"), b"a".to_vec()),
            (cs("@ns/pkg/1.2.3"), b"b".to_vec()),
        ],
        vec![(cs("/main.typ"), cs("text"))],
    );
    assert_eq!(fault.unwrap().index, 1);
    assert!(t.world.get(&ident("good.bin")).is_none());
    assert!(t.world.get(&ident("/main.typ")).is_none());
}

#[test]
fn list_packages_deduplicates() {
    let mut t = Typst::new();
    let fault = t.store(
        vec![],
        vec![
            (cs("@preview/x/0.1.0/a.typ"), b"a".to_vec()),
            (cs("@preview/x/0.1.0/b.typ"), b"b".to_vec()),
            (cs("@other/y/2.0.1/c.typ"), b"c".to_vec()),
        ],
        vec![],
    );
    assert!(fault.is_none());
    let refs = t.world.list_packages();
    assert_eq!(refs.len(), 2);
}

#[test]
fn fonts_of_garbage_buffer_yield_no_faces() {
    let mut w = World::new();
    w.add_font(vec![9u8, 9, 9]);
    assert_eq!(w.fonts.len(), 1);
    assert!(w.list_fonts().is_empty());
}

#[test]
fn prepare_render_fast_and_cold_paths() {
    let mut t = Typst::new();
    t.prepare_render(cs("= One"), &cs("body"), &cs("1"));
    let got = t.world.get(&ident("body_1.typ")).unwrap();
    assert_eq!(st(&got.1.unwrap()), "= One");
    // same pair: incremental replacement of the same backing file
    t.prepare_render(cs("= Two"), &cs("body"), &cs("1"));
    let got2 = t.world.get(&ident("body_1.typ")).unwrap();
    assert_eq!(st(&got2.1.unwrap()), "= Two");
    // changed pair: a different backing file; the first is untouched
    t.prepare_render(cs("= Other"), &cs("eq"), &cs("7"));
    assert_eq!(st(&t.world.get(&ident("eq_7.typ")).unwrap().1.unwrap()), "= Other");
    assert_eq!(st(&t.world.get(&ident("body_1.typ")).unwrap().1.unwrap()), "= Two");
}

#[test]
fn accept_document_gates_on_page_count_and_retains() {
    let mut t = Typst::new();
    assert!(!t.can_locate());
    let r = t.accept_document(0);
    assert!(matches!(r, Err(RenderFault::EmptyDocument)));
    assert!(!t.can_locate());
    assert!(t.accept_document(2).is_ok());
    assert!(t.can_locate());
    // a later failure leaves the retained document queryable
    assert!(t.accept_document(0).is_err());
    assert!(t.can_locate());
}

#[test]
fn assemble_artifact_themes_and_splices() {
    let markup = cs("<svg class=\"x\"><path fill=\"#000000\"/></svg>");
    let overlay = cs("<text>t</text>");
    let out = assemble_artifact(&markup, &overlay, true);
    let mut expected = String::new();
    expected.push_str("<svg style=\"overflow: visible;\" class=\"x\">");
    expected.push_str("<path fill=\"var(--typst-base-color)\"/>");
    expected.push_str("<style>svg text { fill: rgba(0, 0, 0, 0.004) !important; }</style>");
    expected.push_str("<text>t</text>");
    expected.push_str("</svg>");
    assert_eq!(st(&out), expected);
}

#[test]
fn assemble_artifact_without_selection_only_themes() {
    let markup = cs("<svg class=\"x\"><path fill=\"#000000\"/></svg>");
    let out = assemble_artifact(&markup, &cs("ignored"), false);
    assert_eq!(
        st(&out),
        "<svg style=\"overflow: visible;\" class=\"x\"><path fill=\"var(--typst-base-color)\"/></svg>"
    );
}

#[test]
fn prepare_fixed_points_main_at_named_file() {
    let mut t = Typst::new();
    t.prepare_render(cs("= Surface"), &cs("body"), &cs("1"));
    t.prepare_fixed(&cs("report.typ"), cs("= Fixed"));
    let got = t.world.get(&ident("report.typ")).unwrap();
    assert_eq!(st(&got.1.unwrap()), "= Fixed");
    // the surface file is untouched, and the next surface render of the same
    // pair goes back through the cold check rather than editing report.typ
    assert_eq!(st(&t.world.get(&ident("body_1.typ")).unwrap().1.unwrap()), "= Surface");
    t.prepare_render(cs("= Surface 2"), &cs("body"), &cs("1"));
    assert_eq!(st(&t.world.get(&ident("body_1.typ")).unwrap().1.unwrap()), "= Surface 2");
    assert_eq!(st(&t.world.get(&ident("report.typ")).unwrap().1.unwrap()), "= Fixed");
}
