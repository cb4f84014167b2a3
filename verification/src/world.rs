//! The compiler-environment facade: a virtual file store keyed by file
//! identity (last write wins, no delete), a font buffer registry, the main
//! pointer, and the incremental replace protocol an external compiler's
//! re-parse relies on. The store model is the sequence of writes; what a key
//! holds is its last write.

use vstd::prelude::*;

use crate::convert::{faces_of, get_font_info};
use crate::package::{ref_view, PackageReference};
use crate::text::{chars_eq, push_all};

verus! {

/// The value of an identity: an optional package reference and a path.
pub type IdView = (Option<(Seq<char>, Seq<char>, u32, u32, u32)>, Seq<char>);

/// The value of a record: raw bytes and/or decoded text.
pub type RecView = (Option<Seq<u8>>, Option<Seq<char>>);

/// A unique name for one logical file, project-local or package-sourced.
pub struct FileIdentity {
    pub package: Option<PackageReference>,
    pub path: Vec<char>,
}

/// The bytes and/or lazily decoded text held for one identity.
pub struct FileRecord {
    pub bytes: Option<Vec<u8>>,
    pub text: Option<Vec<char>>,
}

pub open spec fn id_view(id: FileIdentity) -> IdView {
    (
        match id.package {
            Some(r) => Some(ref_view(r)),
            None => None,
        },
        id.path@,
    )
}

pub open spec fn rec_view(r: FileRecord) -> RecView {
    (
        match r.bytes {
            Some(b) => Some(b@),
            None => None,
        },
        match r.text {
            Some(t) => Some(t@),
            None => None,
        },
    )
}

/// What a key holds after a sequence of writes: its last write, if any.
pub open spec fn lookup(s: Seq<(IdView, RecView)>, id: IdView) -> Option<RecView>
    decreases s.len(),
{
    if s.len() == 0 {
        None
    } else if s.last().0 == id {
        Some(s.last().1)
    } else {
        lookup(s.drop_last(), id)
    }
}

/// The decoded text a key holds, if any.
pub open spec fn lookup_text(s: Seq<(IdView, RecView)>, id: IdView) -> Option<Seq<char>> {
    match lookup(s, id) {
        Some(r) => r.1,
        None => None,
    }
}

/// The file store, font registry and main pointer, composed.
pub struct World {
    pub writes: Vec<(FileIdentity, FileRecord)>,
    pub fonts: Vec<Vec<u8>>,
    pub faces: Vec<String>,
    pub main: Option<FileIdentity>,
}

/// The face catalogue that a sequence of registered buffers yields: the
/// faces of each buffer, in registration order.
pub open spec fn faces_cat(bufs: Seq<Seq<u8>>) -> Seq<Seq<char>>
    decreases bufs.len(),
{
    if bufs.len() == 0 {
        Seq::empty()
    } else {
        faces_cat(bufs.drop_last()) + faces_of(bufs.last())
    }
}

/// Registering one more buffer extends the catalogue by that buffer's faces.
pub proof fn lemma_faces_cat_push(bufs: Seq<Seq<u8>>, b: Seq<u8>)
    ensures
        faces_cat(bufs.push(b)) == faces_cat(bufs) + faces_of(b),
{
    assert(bufs.push(b).drop_last() =~= bufs);
    assert(bufs.push(b).last() == b);
}

/// The font registry is consistent: the stored face catalogue is exactly
/// what the stored buffers yield.
pub open spec fn fonts_wf(w: World) -> bool {
    w.faces.deep_view() == faces_cat(w.fonts.deep_view())
}

/// The write sequence a world stands for.
pub open spec fn world_view(w: World) -> Seq<(IdView, RecView)> {
    w.writes@.map(|i: int, e: (FileIdentity, FileRecord)| (id_view(e.0), rec_view(e.1)))
}

pub open spec fn main_view(w: World) -> Option<IdView> {
    match w.main {
        Some(id) => Some(id_view(id)),
        None => None,
    }
}

/// No reference is listed twice.
pub open spec fn listed_nodup(r: Seq<PackageReference>) -> bool {
    forall|i: int, j: int| 0 <= i < j < r.len() ==> ref_view(r[i]) != ref_view(r[j])
}

/// Everything listed is the reference of some stored write.
pub open spec fn listed_sound(s: Seq<(IdView, RecView)>, r: Seq<PackageReference>) -> bool {
    forall|i: int| #![trigger r[i]]
        0 <= i < r.len() ==> exists|k: int|
            0 <= k < s.len() && (#[trigger] s[k]).0.0 == Some(ref_view(r[i]))
}

/// Every package reference among the first `n` writes is listed.
pub open spec fn listed_complete_upto(
    s: Seq<(IdView, RecView)>,
    r: Seq<PackageReference>,
    n: int,
) -> bool {
    forall|q: int| #![trigger s[q]]
        0 <= q < n && s[q].0.0 is Some ==> exists|i: int|
            0 <= i < r.len() && Some(ref_view(#[trigger] r[i])) == s[q].0.0
}

pub(crate) fn id_eq(a: &FileIdentity, b: &FileIdentity) -> (r: bool)
    ensures
        r <==> id_view(*a) == id_view(*b),
{
    let pkg_ok = match (&a.package, &b.package) {
        (Option::None, Option::None) => true,
        (Option::Some(x), Option::Some(y)) => {
            chars_eq(&x.namespace, &y.namespace) && chars_eq(&x.name, &y.name) && x.major
                == y.major && x.minor == y.minor && x.patch == y.patch
        },
        _ => false,
    };
    pkg_ok && chars_eq(&a.path, &b.path)
}

impl World {
    /// An empty world: no files, no fonts, no main pointer.
    pub fn new() -> (w: World)
        ensures
            world_view(w) == Seq::<(IdView, RecView)>::empty(),
            w.fonts@.len() == 0,
            w.faces@.len() == 0,
            fonts_wf(w),
            main_view(w) is None,
    {
        let w = World { writes: Vec::new(), fonts: Vec::new(), faces: Vec::new(), main: None };
        proof {
            assert(world_view(w) =~= Seq::<(IdView, RecView)>::empty());
            assert(w.faces.deep_view() =~= faces_cat(w.fonts.deep_view()));
        }
        w
    }

    /// Store raw bytes under an identity: an unconditional overwrite.
    pub fn put(&mut self, id: FileIdentity, bytes: Vec<u8>)
        ensures
            world_view(*final(self)) == world_view(*old(self)).push(
                (id_view(id), (Some(bytes@), None)),
            ),
            final(self).fonts@ == old(self).fonts@,
            final(self).faces@ == old(self).faces@,
            main_view(*final(self)) == main_view(*old(self)),
    {
        let ghost idv = id_view(id);
        let ghost bv = bytes@;
        self.writes.push((id, FileRecord { bytes: Some(bytes), text: None }));
        proof {
            assert(world_view(*self) =~= world_view(*old(self)).push((idv, (Some(bv), None))));
        }
    }

    /// Store decoded text under an identity: an unconditional overwrite.
    pub fn put_text(&mut self, id: FileIdentity, text: Vec<char>)
        ensures
            world_view(*final(self)) == world_view(*old(self)).push(
                (id_view(id), (None, Some(text@))),
            ),
            final(self).fonts@ == old(self).fonts@,
            final(self).faces@ == old(self).faces@,
            main_view(*final(self)) == main_view(*old(self)),
    {
        let ghost idv = id_view(id);
        let ghost tv = text@;
        self.writes.push((id, FileRecord { bytes: None, text: Some(text) }));
        proof {
            assert(world_view(*self) =~= world_view(*old(self)).push((idv, (None, Some(tv)))));
        }
    }

    /// What an identity currently holds.
    pub fn get(&self, id: &FileIdentity) -> (r: Option<(Option<Vec<u8>>, Option<Vec<char>>)>)
        ensures
            match r {
                Some(rec) => lookup(world_view(*self), id_view(*id)) == Some(
                    rec_view(FileRecord { bytes: rec.0, text: rec.1 }),
                ),
                None => lookup(world_view(*self), id_view(*id)) is None,
            },
    {
        let mut j: usize = self.writes.len();
        proof {
            assert(world_view(*self).take(self.writes@.len() as int) =~= world_view(*self));
        }
        while j > 0
            invariant
                j <= self.writes.len(),
                lookup(world_view(*self), id_view(*id)) == lookup(
                    world_view(*self).take(j as int),
                    id_view(*id),
                ),
            decreases j,
        {
            proof {
                assert(world_view(*self).take(j as int).last() == (
                    id_view(self.writes@[j - 1].0),
                    rec_view(self.writes@[j - 1].1),
                ));
                assert(world_view(*self).take(j as int).drop_last() =~= world_view(
                    *self,
                ).take(j as int - 1));
            }
            if id_eq(&self.writes[j - 1].0, id) {
                let rec = &self.writes[j - 1].1;
                let b: Option<Vec<u8>> = match &rec.bytes {
                    Option::Some(v) => Option::Some(clone_bytes(v)),
                    Option::None => Option::None,
                };
                let t: Option<Vec<char>> = match &rec.text {
                    Option::Some(v) => Option::Some(clone_chars(v)),
                    Option::None => Option::None,
                };
                return Some((b, t));
            }
            j -= 1;
        }
        proof {
            assert(world_view(*self).take(0) =~= Seq::<(IdView, RecView)>::empty());
        }
        None
    }

    /// Repoint the main pointer only: no file content is touched.
    pub fn set_main(&mut self, id: FileIdentity)
        ensures
            main_view(*final(self)) == Some(id_view(id)),
            world_view(*final(self)) == world_view(*old(self)),
            final(self).fonts@ == old(self).fonts@,
            final(self).faces@ == old(self).faces@,
    {
        self.main = Some(id);
    }

    /// Whole-buffer substitution of the current main file's decoded text,
    /// keeping its identity so an incremental compiler can diff against the
    /// prior version; a missing record is first materialized empty.
    pub fn replace(&mut self, text: Vec<char>)
        requires
            old(self).main is Some,
        ensures
            main_view(*final(self)) == main_view(*old(self)),
            final(self).fonts@ == old(self).fonts@,
            final(self).faces@ == old(self).faces@,
            lookup_text(world_view(*final(self)), main_view(*old(self))->Some_0) == Some(text@),
            forall|other: IdView|
                other != main_view(*old(self))->Some_0 ==> lookup(
                    world_view(*final(self)),
                    other,
                ) == lookup(world_view(*old(self)), other),
    {
        let id = clone_identity(self.main.as_ref().unwrap());
        let prior = self.get(&id);
        let bytes: Option<Vec<u8>> = match prior {
            Option::Some((b, _t)) => b,
            Option::None => Option::None,
        };
        let ghost idv = id_view(id);
        let ghost bv: Option<Seq<u8>> = match bytes {
            Some(ref b) => Some(b@),
            None => None,
        };
        let ghost tv = text@;
        self.writes.push((id, FileRecord { bytes, text: Some(text) }));
        proof {
            assert(world_view(*self) =~= world_view(*old(self)).push((idv, (bv, Some(tv)))));
            assert(world_view(*self).last() == (idv, (bv, Some(tv))));
            assert forall|other: IdView| other != idv implies lookup(world_view(*self), other)
                == lookup(world_view(*old(self)), other) by {
                assert(world_view(*self).drop_last() =~= world_view(*old(self)));
            }
        }
    }

    /// The incremental edit protocol: an identity that already resolves is
    /// repointed and substituted in place (the fast path); a fresh identity
    /// is first stored, then pointed at (the cold path). Either way the main
    /// pointer names `id` and `id` holds exactly `text` afterwards, with
    /// every other identity untouched.
    pub fn update(&mut self, id: FileIdentity, text: Vec<char>)
        ensures
            main_view(*final(self)) == Some(id_view(id)),
            final(self).fonts@ == old(self).fonts@,
            final(self).faces@ == old(self).faces@,
            lookup_text(world_view(*final(self)), id_view(id)) == Some(text@),
            forall|other: IdView|
                other != id_view(id) ==> lookup(world_view(*final(self)), other) == lookup(
                    world_view(*old(self)),
                    other,
                ),
    {
        let probe = self.get(&id);
        match probe {
            Option::Some(_) => {
                let id2 = clone_identity(&id);
                self.set_main(id2);
                self.replace(text);
            },
            Option::None => {
                let id2 = clone_identity(&id);
                self.put_text(id, text);
                self.set_main(id2);
                proof {
                    assert(world_view(*self).last() == (id_view(id), (None::<Seq<u8>>, Some(text@))));
                    assert forall|other: IdView| other != id_view(id) implies lookup(
                        world_view(*self),
                        other,
                    ) == lookup(world_view(*old(self)), other) by {
                        assert(world_view(*self).drop_last() =~= world_view(*old(self)));
                    }
                }
            },
        }
    }

    /// Register one raw font buffer: the buffer is kept whole, and one
    /// catalogue entry per face parsed from it is appended, in order.
    pub fn add_font(&mut self, bytes: Vec<u8>)
        ensures
            final(self).fonts.deep_view() == old(self).fonts.deep_view().push(bytes@),
            final(self).faces.deep_view() == old(self).faces.deep_view() + faces_of(bytes@),
            world_view(*final(self)) == world_view(*old(self)),
            main_view(*final(self)) == main_view(*old(self)),
            fonts_wf(*old(self)) ==> fonts_wf(*final(self)),
    {
        let ghost bv = bytes@;
        let found = get_font_info(&bytes);
        self.fonts.push(bytes);
        proof {
            assert(self.fonts.deep_view() =~~= old(self).fonts.deep_view().push(bv));
            assert(self.faces.deep_view() =~~= old(self).faces.deep_view()
                + found.deep_view().take(0));
        }
        let mut i: usize = 0;
        while i < found.len()
            invariant
                i <= found.len(),
                found.deep_view() == faces_of(bv),
                self.faces.deep_view() == old(self).faces.deep_view() + found.deep_view().take(
                    i as int,
                ),
                self.fonts.deep_view() == old(self).fonts.deep_view().push(bv),
                self.writes == old(self).writes,
                self.main == old(self).main,
            decreases found.len() - i,
        {
            let ghost prev = self.faces.deep_view();
            let face = found[i].clone();
            proof {
                assert(face@ == found.deep_view()[i as int]);
            }
            self.faces.push(face);
            proof {
                assert(self.faces.deep_view() =~~= prev.push(found.deep_view()[i as int]));
                assert(found.deep_view().take(i as int + 1) =~= found.deep_view().take(
                    i as int,
                ).push(found.deep_view()[i as int]));
                assert(self.faces.deep_view() =~~= old(self).faces.deep_view()
                    + found.deep_view().take(i as int + 1));
            }
            i += 1;
        }
        proof {
            assert(found.deep_view().take(found.deep_view().len() as int) =~= found.deep_view());
            assert(world_view(*self) =~= world_view(*old(self)));
            if fonts_wf(*old(self)) {
                lemma_faces_cat_push(old(self).fonts.deep_view(), bv);
                assert(self.faces.deep_view() =~= faces_cat(self.fonts.deep_view()));
            }
        }
    }

    /// The aggregated font catalogue: one family name per face of each
    /// registered buffer, in registration order.
    pub fn list_fonts(&self) -> (r: &Vec<String>)
        ensures
            fonts_wf(*self) ==> r.deep_view() == faces_cat(self.fonts.deep_view()),
    {
        &self.faces
    }

    /// The distinct package references currently stored, order unspecified
    /// beyond first appearance: every stored reference is listed, nothing
    /// else is, and no reference is listed twice.
    #[verifier::rlimit(100)]
    pub fn list_packages(&self) -> (r: Vec<PackageReference>)
        ensures
            listed_nodup(r@),
            listed_sound(world_view(*self), r@),
            listed_complete_upto(world_view(*self), r@, world_view(*self).len() as int),
    {
        let mut r: Vec<PackageReference> = Vec::new();
        let mut k: usize = 0;
        while k < self.writes.len()
            invariant
                k <= self.writes.len(),
                listed_nodup(r@),
                listed_sound(world_view(*self), r@),
                listed_complete_upto(world_view(*self), r@, k as int),
            decreases self.writes.len() - k,
        {
            proof {
                assert(world_view(*self)[k as int].0 == id_view(self.writes@[k as int].0));
            }
            match &self.writes[k].0.package {
                Option::Some(p) => {
                    proof {
                        assert(world_view(*self)[k as int].0.0 == Some(
                            ref_view(self.writes@[k as int].0.package->Some_0),
                        ));
                    }
                    if !contains_ref(&r, p) {
                        let ghost r0 = r@;
                        r.push(clone_ref(p));
                        proof {
                            assert(Some(ref_view(r@[r@.len() - 1])) == world_view(
                                *self,
                            )[k as int].0.0);
                            assert(forall|i: int|
                                0 <= i < r0.len() ==> #[trigger] r@[i] == r0[i]);
                            assert forall|i: int, j: int|
                                0 <= i < j < r@.len() implies ref_view(r@[i]) != ref_view(
                                r@[j],
                            ) by {
                                if j < r0.len() {
                                    assert(ref_view(r0[i]) != ref_view(r0[j]));
                                } else {
                                    assert(ref_view(r@[i]) == ref_view(r0[i]));
                                }
                            }
                            assert(listed_nodup(r@));
                            assert(0 <= k < world_view(*self).len());
                            assert forall|i: int| #![trigger r@[i]]
                                0 <= i < r@.len() implies exists|q: int|
                                0 <= q < world_view(*self).len() && (#[trigger] world_view(
                                *self,
                            )[q]).0.0 == Some(ref_view(r@[i])) by {
                                if i < r0.len() {
                                    let q0 = choose|q0: int|
                                        0 <= q0 < world_view(*self).len() && (#[trigger] world_view(
                                        *self,
                                    )[q0]).0.0 == Some(ref_view(r0[i]));
                                    assert(world_view(*self)[q0].0.0 == Some(ref_view(r@[i])));
                                } else {
                                    assert(world_view(*self)[k as int].0.0 == Some(
                                        ref_view(r@[i]),
                                    ));
                                }
                            }
                            assert(listed_sound(world_view(*self), r@));
                            assert forall|q: int| #![trigger world_view(*self)[q]]
                                0 <= q < k + 1 && world_view(*self)[q].0.0 is Some
                                implies exists|i: int|
                                0 <= i < r@.len() && Some(ref_view(#[trigger] r@[i]))
                                    == world_view(*self)[q].0.0 by {
                                if q < k {
                                    let i0 = choose|i0: int|
                                        0 <= i0 < r0.len() && Some(ref_view(#[trigger] r0[i0]))
                                            == world_view(*self)[q].0.0;
                                    assert(Some(ref_view(r@[i0])) == world_view(*self)[q].0.0);
                                } else {
                                    assert(Some(ref_view(r@[r@.len() - 1])) == world_view(
                                        *self,
                                    )[q].0.0);
                                }
                            }
                            assert(listed_complete_upto(world_view(*self), r@, k + 1));
                        }
                    } else {
                        proof {
                            assert(exists|i: int|
                                0 <= i < r@.len() && Some(ref_view(#[trigger] r@[i]))
                                    == world_view(*self)[k as int].0.0);
                            assert(listed_complete_upto(world_view(*self), r@, k + 1));
                        }
                    }
                },
                Option::None => {
                    proof {
                        assert(world_view(*self)[k as int].0.0 is None);
                        assert(listed_complete_upto(world_view(*self), r@, k + 1));
                    }
                },
            }
            k += 1;
        }
        proof {
            assert(world_view(*self).len() == self.writes@.len());
        }
        r
    }
}

fn ref_eq(a: &PackageReference, b: &PackageReference) -> (r: bool)
    ensures
        r <==> ref_view(*a) == ref_view(*b),
{
    chars_eq(&a.namespace, &b.namespace) && chars_eq(&a.name, &b.name) && a.major == b.major
        && a.minor == b.minor && a.patch == b.patch
}

fn contains_ref(list: &Vec<PackageReference>, p: &PackageReference) -> (r: bool)
    ensures
        r <==> exists|i: int| 0 <= i < list@.len() && ref_view(#[trigger] list@[i]) == ref_view(*p),
{
    let mut i: usize = 0;
    while i < list.len()
        invariant
            i <= list.len(),
            forall|j: int| 0 <= j < i ==> ref_view(#[trigger] list@[j]) != ref_view(*p),
        decreases list.len() - i,
    {
        if ref_eq(&list[i], p) {
            return true;
        }
        i += 1;
    }
    false
}

/// A fresh reference carrying the same value.
pub fn clone_ref(p: &PackageReference) -> (r: PackageReference)
    ensures
        ref_view(r) == ref_view(*p),
{
    PackageReference {
        namespace: clone_chars(&p.namespace),
        name: clone_chars(&p.name),
        major: p.major,
        minor: p.minor,
        patch: p.patch,
    }
}

pub(crate) fn clone_bytes(v: &Vec<u8>) -> (r: Vec<u8>)
    ensures
        r@ == v@,
{
    let mut r: Vec<u8> = Vec::new();
    let mut i: usize = 0;
    while i < v.len()
        invariant
            i <= v.len(),
            r@ == v@.take(i as int),
        decreases v.len() - i,
    {
        r.push(v[i]);
        proof {
            assert(r@ =~= v@.take(i as int + 1));
        }
        i += 1;
    }
    proof {
        assert(r@ =~= v@);
    }
    r
}

pub(crate) fn clone_chars(v: &Vec<char>) -> (r: Vec<char>)
    ensures
        r@ == v@,
{
    let mut r: Vec<char> = Vec::new();
    push_all(&mut r, v);
    r
}

fn clone_identity(id: &FileIdentity) -> (r: FileIdentity)
    ensures
        id_view(r) == id_view(*id),
{
    let package: Option<PackageReference> = match &id.package {
        Option::Some(p) => Option::Some(
            PackageReference {
                namespace: clone_chars(&p.namespace),
                name: clone_chars(&p.name),
                major: p.major,
                minor: p.minor,
                patch: p.patch,
            },
        ),
        Option::None => Option::None,
    };
    FileIdentity { package, path: clone_chars(&id.path) }
}

/// Re-storing the same text twice under one identity leaves every identity
/// holding exactly what one store leaves: the library half of render
/// idempotence, the compiler being a function of this state.
pub proof fn lemma_update_idempotent(s: Seq<(IdView, RecView)>, id: IdView, r: RecView)
    ensures
        forall|q: IdView| #![auto]
            lookup(s.push((id, r)).push((id, r)), q) == lookup(s.push((id, r)), q),
{
    assert forall|q: IdView| #![auto]
        lookup(s.push((id, r)).push((id, r)), q) == lookup(s.push((id, r)), q) by {
        let s1 = s.push((id, r));
        let s2 = s1.push((id, r));
        assert(s2.last() == (id, r));
        assert(s2.drop_last() =~= s1);
        assert(s1.last() == (id, r));
        if q != id {
            assert(lookup(s2, q) == lookup(s1, q));
        }
    }
}

/// Writing one text under an identity ends in the same observable content
/// whether the identity was fresh (the cold path) or already held a record
/// (the fast path): on every store, the written identity afterwards holds
/// that text, and any two stores that agreed elsewhere still agree.
pub proof fn lemma_path_equivalence(
    s1: Seq<(IdView, RecView)>,
    s2: Seq<(IdView, RecView)>,
    id: IdView,
    r1: RecView,
    r2: RecView,
    text: Seq<char>,
)
    requires
        r1.1 == Some(text),
        r2.1 == Some(text),
        forall|q: IdView| q != id ==> lookup(s1, q) == lookup(s2, q),
    ensures
        lookup_text(s1.push((id, r1)), id) == Some(text),
        lookup_text(s2.push((id, r2)), id) == Some(text),
        forall|q: IdView| #![auto]
            lookup_text(s1.push((id, r1)), q) == lookup_text(s2.push((id, r2)), q),
{
    assert(s1.push((id, r1)).last() == (id, r1));
    assert(s2.push((id, r2)).last() == (id, r2));
    assert(lookup(s1.push((id, r1)), id) == Some(r1));
    assert(lookup(s2.push((id, r2)), id) == Some(r2));
    assert forall|q: IdView| #![auto]
        lookup_text(s1.push((id, r1)), q) == lookup_text(s2.push((id, r2)), q) by {
        if q != id {
            assert(s1.push((id, r1)).drop_last() =~= s1);
            assert(s2.push((id, r2)).drop_last() =~= s2);
            assert(lookup(s1.push((id, r1)), q) == lookup(s1, q));
            assert(lookup(s2.push((id, r2)), q) == lookup(s2, q));
        } else {
            assert(lookup(s1.push((id, r1)), q) == Some(r1));
            assert(lookup(s2.push((id, r2)), q) == Some(r2));
        }
    }
}

} // verus!
