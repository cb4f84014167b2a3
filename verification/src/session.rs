//! The render session around the facade: the one-time store dispatch that
//! populates the three registries transactionally, the (kind, id) memo that
//! keeps repeated edits on the incremental fast path, the typed rejection of
//! a compiled-but-zero-page result, and the retained-document flag behind
//! source-location queries.

use vstd::prelude::*;

use crate::package::{parse_package_key, spec_parse_key};
use crate::world::{
    clone_bytes, clone_chars, fonts_wf, id_eq, lookup, lookup_text, main_view, world_view,
    FileIdentity, IdView, RecView, World,
};
use crate::text::{chars_eq, push_all, push_lit};

verus! {

/// The store fault for a package-qualified key that does not parse:
/// a contract violation by the producer, carrying the offending position.
pub struct MalformedKey {
    pub index: usize,
}

/// A typed render failure distinct from compile diagnostics.
pub enum RenderFault {
    EmptyDocument,
}

/// The backing file name for a render surface: `{kind}_{id}.typ`.
pub open spec fn spec_main_file_name(kind: Seq<char>, id: Seq<char>) -> Seq<char> {
    kind + seq!['_'] + id + ".typ"@
}

/// Build the backing file name for a `(kind, id)` render surface.
pub fn main_file_name(kind: &Vec<char>, id: &Vec<char>) -> (r: Vec<char>)
    ensures
        r@ == spec_main_file_name(kind@, id@),
{
    let mut r: Vec<char> = Vec::new();
    push_all(&mut r, kind);
    r.push('_');
    push_all(&mut r, id);
    push_lit(&mut r, ".typ");
    proof {
        assert(r@ =~= spec_main_file_name(kind@, id@));
    }
    r
}

/// The document title a fixed-page render carries: what the content already
/// set, and the file name only if the content set none.
pub fn effective_title(content: Option<Vec<char>>, filename: &Vec<char>) -> (r: Vec<char>)
    ensures
        content is Some ==> r@ == content->Some_0@,
        content is None ==> r@ == filename@,
{
    match content {
        Option::Some(t) => t,
        Option::None => clone_chars(filename),
    }
}

/// The write a stored package entry amounts to: a package-qualified key is
/// split into its reference and in-package path, any other key names a
/// project-local file.
pub open spec fn package_write(key: Seq<char>, bytes: Seq<u8>) -> (IdView, RecView) {
    if key.len() > 0 && key[0] == '@' {
        let d = spec_parse_key(key)->Some_0;
        ((Some(d.0), d.1), (Some(bytes), None))
    } else {
        ((None, key), (Some(bytes), None))
    }
}

/// The writes a package map amounts to, in order.
pub open spec fn package_writes(items: Seq<(Vec<char>, Vec<u8>)>) -> Seq<(IdView, RecView)> {
    Seq::new(items.len(), |k: int| package_write(items[k].0@, items[k].1@))
}

/// The writes a text-file map amounts to, in order.
pub open spec fn text_writes(items: Seq<(Vec<char>, Vec<char>)>) -> Seq<(IdView, RecView)> {
    Seq::new(
        items.len(),
        |k: int|
            (
                (None::<(Seq<char>, Seq<char>, u32, u32, u32)>, items[k].0@),
                (None::<Seq<u8>>, Some(items[k].1@)),
            ),
    )
}

/// Whether the package entry at `k` carries a package-qualified key that
/// does not parse.
pub open spec fn malformed_at(items: Seq<(Vec<char>, Vec<u8>)>, k: int) -> bool {
    0 <= k < items.len() && items[k].0@.len() > 0 && items[k].0@[0] == '@' && spec_parse_key(
        items[k].0@,
    ) is None
}

/// One interactive session: the composed registries and main pointer, the
/// `(kind, id)` memo that keeps consecutive renders of one surface on the
/// incremental path, and whether a render has succeeded yet.
pub struct Typst {
    pub world: World,
    pub last_kind: Vec<char>,
    pub last_id: Vec<char>,
    pub has_document: bool,
}

impl Typst {
    /// A fresh session: empty registries, no main pointer, no memo, no
    /// retained document.
    pub fn new() -> (t: Typst)
        ensures
            world_view(t.world) == Seq::<(IdView, RecView)>::empty(),
            t.world.fonts@.len() == 0,
            t.world.faces@.len() == 0,
            fonts_wf(t.world),
            main_view(t.world) is None,
            t.last_kind@.len() == 0,
            t.last_id@.len() == 0,
            !t.has_document,
    {
        Typst {
            world: World::new(),
            last_kind: Vec::new(),
            last_id: Vec::new(),
            has_document: false,
        }
    }

    /// The one-time store: register every font buffer, store every package
    /// entry under its parsed identity and every other entry at its root
    /// path, and store every text file. Validation runs first, so a
    /// malformed package key faults the call with nothing applied.
    pub fn store(
        &mut self,
        fonts: Vec<Vec<u8>>,
        packages: Vec<(Vec<char>, Vec<u8>)>,
        files: Vec<(Vec<char>, Vec<char>)>,
    ) -> (r: Option<MalformedKey>)
        ensures
            r is Some <==> exists|k: int| malformed_at(packages@, k),
            r is Some ==> malformed_at(packages@, r->Some_0.index as int) && *final(self) == *old(
                self,
            ),
            r is None ==> world_view(final(self).world) == world_view(old(self).world)
                + package_writes(packages@) + text_writes(files@),
            r is None ==> final(self).world.fonts.deep_view() == old(
                self,
            ).world.fonts.deep_view() + fonts.deep_view(),
            r is None ==> (fonts_wf(old(self).world) ==> fonts_wf(final(self).world)),
            main_view(final(self).world) == main_view(old(self).world),
            final(self).last_kind == old(self).last_kind,
            final(self).last_id == old(self).last_id,
            final(self).has_document == old(self).has_document,
    {
        let mut k: usize = 0;
        while k < packages.len()
            invariant
                k <= packages.len(),
                forall|j: int| 0 <= j < k ==> !malformed_at(packages@, j),
            decreases packages.len() - k,
        {
            let key = &packages[k].0;
            if key.len() > 0 && key[0] == '@' {
                if parse_package_key(key).is_none() {
                    proof {
                        assert(malformed_at(packages@, k as int));
                    }
                    return Some(MalformedKey { index: k });
                }
            }
            k += 1;
        }
        let ghost w0 = world_view(old(self).world);
        let mut k: usize = 0;
        while k < packages.len()
            invariant
                k <= packages.len(),
                forall|j: int| 0 <= j < packages@.len() ==> !malformed_at(packages@, j),
                world_view(self.world) == w0 + package_writes(packages@).take(k as int),
                main_view(self.world) == main_view(old(self).world),
                self.world.fonts@ == old(self).world.fonts@,
                self.world.faces@ == old(self).world.faces@,
                self.last_kind == old(self).last_kind,
                self.last_id == old(self).last_id,
                self.has_document == old(self).has_document,
            decreases packages.len() - k,
        {
            let key = &packages[k].0;
            let bytes = clone_bytes(&packages[k].1);
            if key.len() > 0 && key[0] == '@' {
                match parse_package_key(key) {
                    Option::Some((reference, path)) => {
                        self.world.put(FileIdentity { package: Some(reference), path }, bytes);
                    },
                    Option::None => {
                        // the validation pass proved every key parses
                        proof {
                            assert(malformed_at(packages@, k as int));
                            assert(false);
                        }
                        return None;
                    },
                }
            } else {
                self.world.put(FileIdentity { package: None, path: clone_chars(key) }, bytes);
            }
            proof {
                assert(world_view(self.world) =~= w0 + package_writes(packages@).take(
                    k as int + 1,
                ));
            }
            k += 1;
        }
        proof {
            assert(package_writes(packages@).take(packages@.len() as int) =~= package_writes(
                packages@,
            ));
        }
        let mut k: usize = 0;
        while k < files.len()
            invariant
                k <= files.len(),
                world_view(self.world) == w0 + package_writes(packages@) + text_writes(
                    files@,
                ).take(k as int),
                main_view(self.world) == main_view(old(self).world),
                self.world.fonts@ == old(self).world.fonts@,
                self.world.faces@ == old(self).world.faces@,
                self.last_kind == old(self).last_kind,
                self.last_id == old(self).last_id,
                self.has_document == old(self).has_document,
            decreases files.len() - k,
        {
            let path = clone_chars(&files[k].0);
            let text = clone_chars(&files[k].1);
            self.world.put_text(FileIdentity { package: None, path }, text);
            proof {
                assert(world_view(self.world) =~= w0 + package_writes(packages@) + text_writes(
                    files@,
                ).take(k as int + 1));
            }
            k += 1;
        }
        proof {
            assert(text_writes(files@).take(files@.len() as int) =~= text_writes(files@));
        }
        let mut k: usize = 0;
        while k < fonts.len()
            invariant
                k <= fonts.len(),
                world_view(self.world) == w0 + package_writes(packages@) + text_writes(files@),
                main_view(self.world) == main_view(old(self).world),
                self.world.fonts.deep_view() == old(self).world.fonts.deep_view()
                    + fonts.deep_view().take(k as int),
                fonts_wf(old(self).world) ==> fonts_wf(self.world),
                self.last_kind == old(self).last_kind,
                self.last_id == old(self).last_id,
                self.has_document == old(self).has_document,
            decreases fonts.len() - k,
        {
            let b = clone_bytes(&fonts[k]);
            proof {
                assert(b@ =~= fonts.deep_view()[k as int]);
            }
            self.world.add_font(b);
            proof {
                assert(self.world.fonts.deep_view() =~~= old(self).world.fonts.deep_view()
                    + fonts.deep_view().take(k as int + 1));
            }
            k += 1;
        }
        proof {
            assert(fonts.deep_view().take(fonts@.len() as int) =~= fonts.deep_view());
        }
        None
    }

    /// One render's source update. Consecutive calls with one `(kind, id)`
    /// pair reuse the backing file on the incremental fast path; a changed
    /// pair switches to the file named `{kind}_{id}.typ` on the cold path.
    /// Either way the main pointer names that file, the file holds exactly
    /// `code`, and every other identity is untouched.
    pub fn prepare_render(&mut self, code: Vec<char>, kind: &Vec<char>, id: &Vec<char>)
        ensures
            final(self).last_kind@ == kind@,
            final(self).last_id@ == id@,
            final(self).has_document == old(self).has_document,
            main_view(final(self).world) == Some(
                (
                    None::<(Seq<char>, Seq<char>, u32, u32, u32)>,
                    spec_main_file_name(kind@, id@),
                ),
            ),
            lookup_text(
                world_view(final(self).world),
                (None::<(Seq<char>, Seq<char>, u32, u32, u32)>, spec_main_file_name(kind@, id@)),
            ) == Some(code@),
            forall|other: IdView|
                other != (
                    None::<(Seq<char>, Seq<char>, u32, u32, u32)>,
                    spec_main_file_name(kind@, id@),
                ) ==> lookup(world_view(final(self).world), other) == lookup(
                    world_view(old(self).world),
                    other,
                ),
            final(self).world.fonts@ == old(self).world.fonts@,
            final(self).world.faces@ == old(self).world.faces@,
    {
        let file = FileIdentity { package: None, path: main_file_name(kind, id) };
        let memo_hit = chars_eq(kind, &self.last_kind) && chars_eq(id, &self.last_id);
        let main_ok = match &self.world.main {
            Option::Some(m) => id_eq(m, &file),
            Option::None => false,
        };
        if memo_hit && main_ok {
            self.world.replace(code);
        } else {
            self.last_kind = clone_chars(kind);
            self.last_id = clone_chars(id);
            self.world.update(file, code);
        }
    }

    /// A fixed-page render's source update: the file named by the caller
    /// becomes the main file and holds exactly `code`; the render memo is
    /// not touched, so the next surface render re-checks its own file.
    pub fn prepare_fixed(&mut self, filename: &Vec<char>, code: Vec<char>)
        ensures
            main_view(final(self).world) == Some(
                (None::<(Seq<char>, Seq<char>, u32, u32, u32)>, filename@),
            ),
            lookup_text(
                world_view(final(self).world),
                (None::<(Seq<char>, Seq<char>, u32, u32, u32)>, filename@),
            ) == Some(code@),
            forall|other: IdView|
                other != (None::<(Seq<char>, Seq<char>, u32, u32, u32)>, filename@) ==> lookup(
                    world_view(final(self).world),
                    other,
                ) == lookup(world_view(old(self).world), other),
            final(self).last_kind == old(self).last_kind,
            final(self).last_id == old(self).last_id,
            final(self).has_document == old(self).has_document,
            final(self).world.fonts@ == old(self).world.fonts@,
            final(self).world.faces@ == old(self).world.faces@,
    {
        let file = FileIdentity { package: None, path: clone_chars(filename) };
        self.world.update(file, code);
    }

    /// Gate a compiled result on its page count: a zero-page document is a
    /// typed fault distinct from compile diagnostics, and only a success
    /// overwrites the retained-document flag — a failure leaves the prior
    /// document queryable, deliberately.
    pub fn accept_document(&mut self, page_count: usize) -> (r: Result<(), RenderFault>)
        ensures
            r is Ok <==> page_count != 0,
            final(self).has_document == (old(self).has_document || page_count != 0),
            final(self).world == old(self).world,
            final(self).last_kind == old(self).last_kind,
            final(self).last_id == old(self).last_id,
    {
        if page_count == 0 {
            Err(RenderFault::EmptyDocument)
        } else {
            self.has_document = true;
            Ok(())
        }
    }

    /// Whether a source-location query may be answered: only after a prior
    /// successful render in this session.
    pub fn can_locate(&self) -> (r: bool)
        ensures
            r == self.has_document,
    {
        self.has_document
    }
}

} // verus!
