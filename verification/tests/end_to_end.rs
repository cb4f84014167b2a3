use typst::diag::{FileError, FileResult, Warned};
use typst::foundations::{Bytes, Datetime};
use typst::syntax::{FileId, RootedPath, Source, VirtualPath, VirtualRoot};
use typst::text::{Font, FontBook};
use typst::utils::LazyHash;
use typst::{Library, LibraryExt, World};
use typst_layout::PagedDocument;

use typst_facade::overlay;
use typst_facade::session::Typst;
use typst_facade::theme::assemble_artifact;
use typst_facade::world::FileIdentity;

fn chars(s: &str) -> Vec<char> {
    s.chars().collect()
}

fn string(v: &[char]) -> String {
    v.iter().collect()
}

struct TestWorld {
    session: Typst,
    library: LazyHash<Library>,
    book: LazyHash<FontBook>,
    fonts: Vec<Font>,
}

impl TestWorld {
    fn new(session: Typst) -> Self {
        let mut fonts = Vec::new();
        for buffer in session.world.fonts.iter() {
            let data = Bytes::new(buffer.clone());
            let mut face = 0u32;
            while let Some(font) = Font::new(data.clone(), face) {
                fonts.push(font);
                face += 1;
            }
        }
        let book = FontBook::from_fonts(&fonts);
        TestWorld {
            session,
            library: LazyHash::new(Library::default()),
            book: LazyHash::new(book),
            fonts,
        }
    }

    fn identity_of(id: FileId) -> FileIdentity {
        let package = id.package().map(|spec| typst_facade::package::PackageReference {
            namespace: chars(&spec.namespace),
            name: chars(&spec.name),
            major: spec.version.major,
            minor: spec.version.minor,
            patch: spec.version.patch,
        });
        let rooted = id.vpath().as_rooted_path().to_string_lossy().into_owned();
        let path = rooted.strip_prefix('/').unwrap_or(&rooted).to_string();
        FileIdentity { package, path: chars(&path) }
    }
}

impl World for TestWorld {
    fn library(&self) -> &LazyHash<Library> {
        &self.library
    }

    fn book(&self) -> &LazyHash<FontBook> {
        &self.book
    }

    fn main(&self) -> FileId {
        let identity = self.session.world.main.as_ref().expect("main pointer is set");
        let vpath = VirtualPath::new(string(&identity.path)).expect("path is well-formed");
        RootedPath::new(VirtualRoot::Project, vpath).intern()
    }

    fn source(&self, id: FileId) -> FileResult<Source> {
        let identity = Self::identity_of(id);
        match self.session.world.get(&identity) {
            Some((_bytes, Some(text))) => Ok(Source::new(id, string(&text))),
            Some((Some(bytes), None)) => match String::from_utf8(bytes) {
                Ok(text) => Ok(Source::new(id, text)),
                Err(_) => Err(FileError::InvalidUtf8),
            },
            _ => Err(FileError::NotFound(id.vpath().as_rooted_path().into())),
        }
    }

    fn file(&self, id: FileId) -> FileResult<Bytes> {
        let identity = Self::identity_of(id);
        match self.session.world.get(&identity) {
            Some((Some(bytes), _)) => Ok(Bytes::new(bytes)),
            Some((None, Some(text))) => Ok(Bytes::from_string(string(&text))),
            _ => Err(FileError::NotFound(id.vpath().as_rooted_path().into())),
        }
    }

    fn font(&self, index: usize) -> Option<Font> {
        self.fonts.get(index).cloned()
    }

    fn today(&self, _offset: Option<typst::foundations::Duration>) -> Option<Datetime> {
        Datetime::from_ymd(1970, 1, 1)
    }
}

fn convert_frame(frame: &typst::layout::Frame) -> overlay::Frame {
    let mut items = Vec::new();
    for (pos, item) in frame.items() {
        let x = (pos.x.to_pt() * 1000.0) as i64;
        let y = (pos.y.to_pt() * 1000.0) as i64;
        match item {
            typst::layout::FrameItem::Group(group) => {
                items.push(overlay::Placed {
                    x,
                    y,
                    item: overlay::FrameItem::Group(overlay::Group {
                        transform: typst_facade::transform::Transform {
                            sx: (group.transform.sx.get() * 1000.0) as i64,
                            ky: (group.transform.ky.get() * 1000.0) as i64,
                            kx: (group.transform.kx.get() * 1000.0) as i64,
                            sy: (group.transform.sy.get() * 1000.0) as i64,
                            tx: (group.transform.tx.to_pt() * 1000.0) as i64,
                            ty: (group.transform.ty.to_pt() * 1000.0) as i64,
                        },
                        frame: convert_frame(&group.frame),
                    }),
                });
            }
            typst::layout::FrameItem::Text(text) => {
                let glyphs = text
                    .glyphs
                    .iter()
                    .map(|g| overlay::Glyph {
                        x_offset: (g.x_offset.at(text.size).to_pt() * 1000.0) as i64,
                        y_offset: (g.y_offset.at(text.size).to_pt() * 1000.0) as i64,
                        x_advance: (g.x_advance.at(text.size).to_pt() * 1000.0) as i64,
                        y_advance: (g.y_advance.at(text.size).to_pt() * 1000.0) as i64,
                        text: text.text.as_str()[g.range()].chars().collect(),
                    })
                    .collect();
                items.push(overlay::Placed {
                    x,
                    y,
                    item: overlay::FrameItem::Text(overlay::TextRun {
                        size: (text.size.to_pt() * 1000.0) as i64,
                        glyphs,
                    }),
                });
            }
            _ => items.push(overlay::Placed { x, y, item: overlay::FrameItem::Other }),
        }
    }
    overlay::Frame { items }
}

fn render(world: &mut TestWorld, code: &str, kind: &str, id: &str) -> Option<String> {
    world.session.prepare_render(chars(code), &chars(kind), &chars(id));
    let Warned { output, warnings: _ } = typst::compile::<PagedDocument>(&*world);
    let document = output.ok()?;
    if world.session.accept_document(document.pages().len()).is_err() {
        return None;
    }
    let page = &document.pages()[0];
    let markup = typst_svg::svg(page, &typst_svg::SvgOptions::default());
    let model = convert_frame(&page.frame);
    let overlay_markup = overlay::generate_text_layer_for_frame(&model);
    let artifact = assemble_artifact(&chars(&markup), &overlay_markup, true);
    Some(string(&artifact))
}

#[test]
fn store_then_render_twice_end_to_end() {
    let mut session = Typst::new();
    let fonts: Vec<Vec<u8>> = typst_assets::fonts().map(|b| b.to_vec()).collect();
    let fault = session.store(
        fonts,
        vec![(chars("@preview/x/0.1.0/lib.typ"), b"#let answer = 42".to_vec())],
        vec![(chars("doc.typ"), chars("= Hello"))],
    );
    assert!(fault.is_none());
    assert_eq!(session.world.list_packages().len(), 1);
    let families = session.world.list_fonts().len();
    assert!(families > 0);

    let mut world = TestWorld::new(session);
    let first = render(&mut world, "Hello, world", "body", "1").expect("first render succeeds");
    // a visible glyph element from the renderer
    assert!(first.contains("<use") || first.contains("<path"));
    // the invisible, selectable text layer with its near-zero-alpha rule
    assert!(first.contains("rgba(0, 0, 0, 0.004)"));
    assert!(first.contains("<tspan"));
    assert!(first.contains(">H</tspan>"));
    assert!(world.session.can_locate());

    // same (kind, id), different code: the incremental path, a different artifact,
    // with no re-registration of fonts or packages
    let second = render(&mut world, "Other text", "body", "1").expect("second render succeeds");
    assert_ne!(first, second);
    assert_eq!(world.session.world.list_packages().len(), 1);
    assert_eq!(world.session.world.list_fonts().len(), families);
}
