//! The faces that text is drawn with, and where each request finds its face.

use crate::assoc::AssocMap;
use crate::font_names::FONT_APPLICATION;
use crate::font_raster::{FontFace, Glyph, MacRomanFace};
use vstd::prelude::*;

verus! {

/// Tables of faces by family and size. A face that was added stays.
pub struct FontCatalogue {
    pub faces: Vec<FontFace>,
    pub macroman_faces: Vec<MacRomanFace>,
    /// The directory that the overrides came from.
    pub override_directory: Option<String>,
    pub overrides_resolved: bool,
    pub override_faces: AssocMap<(i16, i16), usize>,
    /// Bitmap strikes of the guest.
    pub resource_faces: AssocMap<(i16, i16), usize>,
    pub resource_macroman_faces: AssocMap<(i16, i16), usize>,
    /// Faces rasterized from outlines of the guest.
    pub guest_outline_faces: AssocMap<(i16, i16), usize>,
    pub guest_macroman_faces: AssocMap<(i16, i16), usize>,
    /// Faces rasterized from bundled outlines, with their extensions.
    pub outline_faces: AssocMap<(i16, i16), (usize, usize)>,
}

/// The greatest size that bundled outlines are rasterized at.
pub const LARGEST_OUTLINE_SIZE: i16 = 96;

/// The size that zero stands for.
pub const DEFAULT_FONT_SIZE: i16 = 12;

/// A size with the default in place of zero.
pub open spec fn requested_size(size: i16) -> i16 {
    if size == 0 {
        DEFAULT_FONT_SIZE
    } else {
        size
    }
}

/// A size that is at least one, with the default in place of zero.
pub open spec fn drawable_size(size: i16) -> i16 {
    if size == 0 {
        DEFAULT_FONT_SIZE
    } else if size < 1 {
        1
    } else {
        size
    }
}

/// A number that is at least one.
pub open spec fn at_least_one(value: i16) -> i16 {
    if value < 1 {
        1
    } else {
        value
    }
}

/// How far two sizes are apart.
pub open spec fn size_distance(a: i16, b: i16) -> int {
    if a >= b {
        a - b
    } else {
        b - a
    }
}

/// `candidate` suits a request better than `other`: it is nearer, or as near
/// and larger.
pub open spec fn suits_better(size: i16, candidate: i16, other: i16) -> bool {
    size_distance(candidate, size) < size_distance(other, size) || (size_distance(candidate, size)
        == size_distance(other, size) && candidate >= other)
}

/// The entry of a table, where there is one.
pub open spec fn table_entry<V>(table: Map<(i16, i16), V>, font_id: i16, size: i16) -> Option<V> {
    if table.dom().contains((font_id, size)) {
        Some(table[(font_id, size)])
    } else {
        None
    }
}

/// The size of a strike that suits a request best among the strikes of its
/// family.
pub open spec fn is_closest(table: Map<(i16, i16), usize>, font_id: i16, size: i16, chosen: i16) -> bool {
    &&& table.dom().contains((font_id, chosen))
    &&& forall|other: i16| #[trigger]
        table.dom().contains((font_id, other)) ==> suits_better(size, chosen, other)
}

/// A family has a strike.
pub open spec fn has_strike(table: Map<(i16, i16), usize>, font_id: i16) -> bool {
    exists|size: i16| #[trigger] table.dom().contains((font_id, size))
}

/// The strike that suits a request best.
pub open spec fn closest_strike(table: Map<(i16, i16), usize>, font_id: i16, size: i16) -> Option<
    usize,
> {
    if has_strike(table, font_id) {
        Some(table[(font_id, choose|chosen: i16| is_closest(table, font_id, size, chosen))])
    } else {
        None
    }
}

/// Faces by the family and size that they name; later ones replace earlier.
pub open spec fn faces_by_key(faces: Seq<FontFace>) -> Map<(i16, i16), FontFace>
    decreases faces.len(),
{
    if faces.len() == 0 {
        Map::empty()
    } else {
        faces_by_key(faces.drop_last()).insert((faces.last().font_id, faces.last().size), faces.last())
    }
}

/// The first glyph of a Mac Roman code, or the number of glyphs.
pub open spec fn code_position(face: MacRomanFace, mac_code: u8, from: nat) -> int
    decreases face.glyphs@.len() - from,
{
    if from >= face.glyphs@.len() {
        face.glyphs@.len() as int
    } else if face.glyphs@[from as int].mac_code == mac_code {
        from as int
    } else {
        code_position(face, mac_code, from + 1)
    }
}

/// The glyph of a Mac Roman code in a face, with the face's data.
pub open spec fn glyph_in(face: MacRomanFace, mac_code: u8) -> Option<(Glyph, Seq<u8>)> {
    let position = code_position(face, mac_code, 0);
    if position < face.glyphs@.len() {
        Some((face.glyphs@[position].glyph, face.data@))
    } else {
        None
    }
}

impl FontCatalogue {
    /// Position `index` holds a face of the family and size of its key.
    pub open spec fn holds_face(&self, index: usize, key: (i16, i16)) -> bool {
        &&& index < self.faces@.len()
        &&& self.faces@[index as int].font_id == key.0
        &&& self.faces@[index as int].size == key.1
    }

    /// Every table names faces that exist, each under the family and size that
    /// it has, and a bundled outline has every character of its face and every
    /// upper code of its extension.
    pub open spec fn wf(&self) -> bool {
        &&& forall|key: (i16, i16)| #[trigger]
            self.override_faces@.dom().contains(key) ==> self.holds_face(
                self.override_faces@[key],
                key,
            )
        &&& forall|key: (i16, i16)| #[trigger]
            self.resource_faces@.dom().contains(key) ==> self.holds_face(
                self.resource_faces@[key],
                key,
            )
        &&& forall|key: (i16, i16)| #[trigger]
            self.resource_macroman_faces@.dom().contains(key)
                ==> self.resource_macroman_faces@[key] < self.macroman_faces@.len()
        &&& forall|key: (i16, i16)| #[trigger]
            self.guest_outline_faces@.dom().contains(key) ==> self.holds_face(
                self.guest_outline_faces@[key],
                key,
            )
        &&& forall|key: (i16, i16)| #[trigger]
            self.guest_macroman_faces@.dom().contains(key) ==> self.guest_macroman_faces@[key]
                < self.macroman_faces@.len()
        &&& forall|key: (i16, i16)| #[trigger]
            self.outline_faces@.dom().contains(key) ==> {
                &&& self.holds_face(self.outline_faces@[key].0, key)
                &&& crate::font_raster::face_complete(
                    self.faces@[self.outline_faces@[key].0 as int],
                )
                &&& self.outline_faces@[key].1 < self.macroman_faces@.len()
                &&& crate::font_raster::extension_complete(
                    self.macroman_faces@[self.outline_faces@[key].1 as int],
                )
                &&& 1 <= key.1 <= LARGEST_OUTLINE_SIZE
            }
    }

    /// The override of a face. Until the directory is resolved there is none.
    pub open spec fn override_index(&self, font_id: i16, size: i16) -> Option<usize> {
        table_entry(self.override_faces@, font_id, size)
    }

    /// The bundled face of a request.
    pub open spec fn outline_index(&self, font_id: i16, size: i16) -> Option<usize> {
        match table_entry(self.outline_faces@, font_id, size) {
            Some(faces) => Some(faces.0),
            None => None,
        }
    }

    /// The face of an exact request: an override, a strike or an outline of
    /// the guest, or a bundled outline, in that order.
    pub open spec fn face_index(&self, font_id: i16, size: i16) -> Option<usize> {
        let wanted = requested_size(size);
        match self.override_index(font_id, wanted) {
            Some(index) => Some(index),
            None => match table_entry(self.resource_faces@, font_id, wanted) {
                Some(index) => Some(index),
                None => match table_entry(self.guest_outline_faces@, font_id, wanted) {
                    Some(index) => Some(index),
                    None => self.outline_index(font_id, wanted),
                },
            },
        }
    }

    /// The face that a request falls back to.
    pub open spec fn fallback_index(&self, font_id: i16, size: i16) -> Option<usize> {
        let bounded = if size < LARGEST_OUTLINE_SIZE {
            size
        } else {
            LARGEST_OUTLINE_SIZE
        };
        match self.outline_index(font_id, bounded) {
            Some(index) => Some(index),
            None => self.outline_index(FONT_APPLICATION, bounded),
        }
    }

    /// The face of any request.
    pub open spec fn resolved_index(&self, font_id: i16, size: i16) -> Option<usize> {
        let wanted = drawable_size(size);
        match self.face_index(font_id, wanted) {
            Some(index) => Some(index),
            None => match closest_strike(self.resource_faces@, font_id, wanted) {
                Some(index) => Some(index),
                None => self.fallback_index(font_id, wanted),
            },
        }
    }

    /// The overrides as faces.
    pub open spec fn overrides(&self) -> Map<(i16, i16), FontFace> {
        Map::new(
            |key: (i16, i16)| self.override_faces@.dom().contains(key),
            |key: (i16, i16)| self.faces@[self.override_faces@[key] as int],
        )
    }

    /// The glyph of a Mac Roman code for a request.
    pub open spec fn macroman_glyph(&self, font_id: i16, size: i16, mac_code: u8) -> Option<
        (Glyph, Seq<u8>),
    > {
        let face = self.faces@[self.resolved_index(font_id, size)->0 as int];
        let strike = match table_entry(self.resource_macroman_faces@, face.font_id, face.size) {
            Some(index) => glyph_in(self.macroman_faces@[index as int], mac_code),
            None => None,
        };
        let guest = match table_entry(self.guest_macroman_faces@, face.font_id, face.size) {
            Some(index) => glyph_in(self.macroman_faces@[index as int], mac_code),
            None => None,
        };
        if strike is Some {
            strike
        } else if guest is Some {
            guest
        } else if self.override_index(face.font_id, face.size) is None && !self.resource_faces@.dom().contains(
            (face.font_id, face.size),
        ) {
            match table_entry(self.outline_faces@, face.font_id, face.size) {
                Some(faces) => glyph_in(self.macroman_faces@[faces.1 as int], mac_code),
                None => None,
            }
        } else {
            None
        }
    }

    /// A catalogue without faces.
    pub fn new() -> (catalogue: Self)
        ensures
            catalogue.wf(),
            catalogue.faces@.len() == 0,
            catalogue.macroman_faces@.len() == 0,
            catalogue.override_directory is None,
            !catalogue.overrides_resolved,
            catalogue.override_faces@ == Map::<(i16, i16), usize>::empty(),
            catalogue.resource_faces@ == Map::<(i16, i16), usize>::empty(),
            catalogue.resource_macroman_faces@ == Map::<(i16, i16), usize>::empty(),
            catalogue.guest_outline_faces@ == Map::<(i16, i16), usize>::empty(),
            catalogue.guest_macroman_faces@ == Map::<(i16, i16), usize>::empty(),
            catalogue.outline_faces@ == Map::<(i16, i16), (usize, usize)>::empty(),
            catalogue.overrides() == Map::<(i16, i16), FontFace>::empty(),
            forall|font_id: i16, size: i16| #[trigger] catalogue.face_index(font_id, size) is None,
    {
        let catalogue = FontCatalogue {
            faces: Vec::new(),
            macroman_faces: Vec::new(),
            override_directory: None,
            overrides_resolved: false,
            override_faces: AssocMap::new(),
            resource_faces: AssocMap::new(),
            resource_macroman_faces: AssocMap::new(),
            guest_outline_faces: AssocMap::new(),
            guest_macroman_faces: AssocMap::new(),
            outline_faces: AssocMap::new(),
        };
        assert(catalogue.overrides() =~= Map::<(i16, i16), FontFace>::empty());
        catalogue
    }

    /// Resolve the override directory again at the next request.
    pub fn refresh_font_overrides(&mut self)
        ensures
            *final(self) == (FontCatalogue { overrides_resolved: false, ..*old(self) }),
    {
        self.overrides_resolved = false;
    }

    /// Whether the override directory has to be resolved before the next
    /// request.
    pub fn needs_override_directory(&self) -> (needed: bool)
        ensures
            needed == !self.overrides_resolved,
    {
        !self.overrides_resolved
    }

    /// Resolve the override directory. Another directory than before replaces
    /// the overrides by what is loaded from it; no directory leaves none.
    pub fn resolve_overrides(
        &mut self,
        directory: Option<String>,
        load: impl FnOnce(&String) -> Vec<FontFace>,
    )
        requires
            old(self).wf(),
            directory matches Some(path) ==> call_requires(load, (&path,)),
        ensures
            final(self).wf(),
            final(self).overrides_resolved,
            final(self).override_directory == directory || (final(self).override_directory == old(
                self,
            ).override_directory && same_directory(directory, old(self).override_directory)),
            same_directory(directory, old(self).override_directory) ==> *final(self) == (
            FontCatalogue { overrides_resolved: true, ..*old(self) }),
            !same_directory(directory, old(self).override_directory) ==> match directory {
                Some(path) => exists|loaded: Vec<FontFace>| #[trigger]
                    call_ensures(load, (&path,), loaded) && final(self).overrides()
                        == faces_by_key(loaded@),
                None => final(self).overrides() == Map::<(i16, i16), FontFace>::empty(),
            },
            old(self).faces@ == final(self).faces@.take(old(self).faces@.len() as int),
            *final(self) == (FontCatalogue {
                faces: final(self).faces,
                override_directory: final(self).override_directory,
                override_faces: final(self).override_faces,
                overrides_resolved: true,
                ..*old(self)
            }),
    {
        self.overrides_resolved = true;
        if directories_agree(&directory, &self.override_directory) {
            assert(self.faces@.take(self.faces@.len() as int) =~= self.faces@);
            return;
        }
        self.override_faces = AssocMap::new();
        assert(self.overrides() =~= Map::<(i16, i16), FontFace>::empty());
        match &directory {
            Some(path) => {
                let loaded = load(path);
                let ghost all = loaded@;
                self.add_overrides(loaded);
                assert(self.overrides() == faces_by_key(all));
            },
            None => {
                assert(self.faces@.take(self.faces@.len() as int) =~= self.faces@);
            },
        }
        self.override_directory = directory;
    }

    fn add_overrides(&mut self, loaded: Vec<FontFace>)
        requires
            old(self).wf(),
            old(self).overrides() == Map::<(i16, i16), FontFace>::empty(),
        ensures
            final(self).wf(),
            final(self).overrides() == faces_by_key(loaded@),
            old(self).faces@ == final(self).faces@.take(old(self).faces@.len() as int),
            *final(self) == (FontCatalogue {
                faces: final(self).faces,
                override_faces: final(self).override_faces,
                ..*old(self)
            }),
    {
        let ghost all = loaded@;
        let ghost before = self.faces@;
        let mut rest = loaded;
        let count: usize = rest.len();
        let mut i: usize = 0;
        assert(all.skip(0) =~= all);
        assert(before.take(before.len() as int) =~= before);
        assert(self.overrides() == faces_by_key(all.take(0)));
        while i < count
            invariant
                i <= count,
                count == all.len(),
                rest@ == all.skip(i as int),
                self.wf(),
                self.faces@.len() == before.len() + i,
                before == self.faces@.take(before.len() as int),
                self.overrides() == faces_by_key(all.take(i as int)),
                *self == (FontCatalogue {
                    faces: self.faces,
                    override_faces: self.override_faces,
                    ..*old(self)
                }),
            decreases count - i,
        {
            let ghost known = *self;
            let face = rest.remove(0);
            let key = (face.font_id, face.size);
            let index: usize = self.faces.len();
            proof {
                assert(face == all[i as int]);
                assert(all.skip(i as int).remove(0) =~= all.skip(i + 1));
                assert(all.take(i + 1).drop_last() =~= all.take(i as int));
            }
            self.faces.push(face);
            let _ = self.override_faces.insert(key, index);
            proof {
                known.lemma_more_faces(self.faces);
                assert(self.faces@.take(before.len() as int) =~= before);
                assert(self.overrides() =~= known.overrides().insert(key, face));
            }
            i += 1;
        }
        assert(all.take(count as int) =~= all);
    }

    /// Faces that are added change no face that a table names.
    proof fn lemma_more_faces(self, faces: Vec<FontFace>)
        requires
            self.wf(),
            faces@.len() >= self.faces@.len(),
            forall|i: int| 0 <= i < self.faces@.len() ==> faces@[i] == self.faces@[i],
        ensures
            (FontCatalogue { faces, ..self }).wf(),
            (FontCatalogue { faces, ..self }).overrides() == self.overrides(),
    {
        let more = FontCatalogue { faces, ..self };
        assert forall|index: usize, key: (i16, i16)| #[trigger]
            self.holds_face(index, key) implies more.holds_face(index, key) by {}
        assert forall|key: (i16, i16)| #[trigger]
            more.override_faces@.dom().contains(key) implies more.holds_face(
            more.override_faces@[key],
            key,
        ) by {
            assert(self.holds_face(self.override_faces@[key], key));
        }
        assert(more.overrides() =~= self.overrides());
    }

    /// Whether a request needs a bundled outline that is not rasterized yet.
    pub fn needs_outline(&self, font_id: i16, size: i16) -> (needed: bool)
        ensures
            needed == (1 <= size <= LARGEST_OUTLINE_SIZE && crate::font_layout::outline_of(
                font_id,
            ) is Some && !self.outline_faces@.dom().contains((font_id, size))),
    {
        1 <= size && size <= LARGEST_OUTLINE_SIZE && crate::font_layout::bundled_outline(
            font_id,
        ).is_some() && !self.outline_faces.contains_key(&(font_id, size))
    }

    /// Add a face that was rasterized from a bundled outline.
    pub fn install_outline_faces(&mut self, face: FontFace, extension: MacRomanFace)
        requires
            old(self).wf(),
            1 <= face.size <= LARGEST_OUTLINE_SIZE,
            crate::font_raster::face_complete(face),
            crate::font_raster::extension_complete(extension),
        ensures
            final(self).wf(),
            final(self).faces@ == old(self).faces@.push(face),
            final(self).macroman_faces@ == old(self).macroman_faces@.push(extension),
            final(self).outline_faces@ == old(self).outline_faces@.insert(
                (face.font_id, face.size),
                (old(self).faces@.len() as usize, old(self).macroman_faces@.len() as usize),
            ),
            *final(self) == (FontCatalogue {
                faces: final(self).faces,
                macroman_faces: final(self).macroman_faces,
                outline_faces: final(self).outline_faces,
                ..*old(self)
            }),
    {
        let ghost known = *self;
        let key = (face.font_id, face.size);
        let index: usize = self.faces.len();
        let extension_index: usize = self.macroman_faces.len();
        self.faces.push(face);
        self.macroman_faces.push(extension);
        let _ = self.outline_faces.insert(key, (index, extension_index));
        proof {
            known.lemma_more_faces(self.faces);
        }
    }

    /// Add a bitmap strike of the guest under the family and size that it has.
    pub fn register_resource_face(&mut self, face: FontFace, extension: Option<MacRomanFace>)
        requires
            old(self).wf(),
        ensures
            final(self).wf(),
            final(self).faces@ == old(self).faces@.push(face),
            final(self).resource_faces@ == old(self).resource_faces@.insert(
                (face.font_id, face.size),
                old(self).faces@.len() as usize,
            ),
            match extension {
                Some(extension) => {
                    &&& final(self).macroman_faces@ == old(self).macroman_faces@.push(extension)
                    &&& final(self).resource_macroman_faces@ == old(
                        self,
                    ).resource_macroman_faces@.insert(
                        (face.font_id, face.size),
                        old(self).macroman_faces@.len() as usize,
                    )
                },
                None => {
                    &&& final(self).macroman_faces@ == old(self).macroman_faces@
                    &&& final(self).resource_macroman_faces@ == old(self).resource_macroman_faces@
                },
            },
            *final(self) == (FontCatalogue {
                faces: final(self).faces,
                macroman_faces: final(self).macroman_faces,
                resource_faces: final(self).resource_faces,
                resource_macroman_faces: final(self).resource_macroman_faces,
                ..*old(self)
            }),
    {
        let ghost known = *self;
        let key = (face.font_id, face.size);
        let index: usize = self.faces.len();
        self.faces.push(face);
        let _ = self.resource_faces.insert(key, index);
        proof {
            known.lemma_more_faces(self.faces);
        }
        match extension {
            Some(extension) => {
                let extension_index: usize = self.macroman_faces.len();
                self.macroman_faces.push(extension);
                let _ = self.resource_macroman_faces.insert(key, extension_index);
            },
            None => {},
        }
    }

    /// Add a face that was rasterized from an outline of the guest, with its
    /// extension.
    pub fn install_guest_outline_face(&mut self, face: FontFace, extension: MacRomanFace)
        requires
            old(self).wf(),
        ensures
            final(self).wf(),
            final(self).faces@ == old(self).faces@.push(face),
            final(self).macroman_faces@ == old(self).macroman_faces@.push(extension),
            final(self).guest_outline_faces@ == old(self).guest_outline_faces@.insert(
                (face.font_id, face.size),
                old(self).faces@.len() as usize,
            ),
            final(self).guest_macroman_faces@ == old(self).guest_macroman_faces@.insert(
                (face.font_id, face.size),
                old(self).macroman_faces@.len() as usize,
            ),
            *final(self) == (FontCatalogue {
                faces: final(self).faces,
                macroman_faces: final(self).macroman_faces,
                guest_outline_faces: final(self).guest_outline_faces,
                guest_macroman_faces: final(self).guest_macroman_faces,
                ..*old(self)
            }),
    {
        let ghost known = *self;
        let key = (face.font_id, face.size);
        let index: usize = self.faces.len();
        let extension_index: usize = self.macroman_faces.len();
        self.faces.push(face);
        self.macroman_faces.push(extension);
        let _ = self.guest_outline_faces.insert(key, index);
        let _ = self.guest_macroman_faces.insert(key, extension_index);
        proof {
            known.lemma_more_faces(self.faces);
        }
    }

    fn override_position(&self, font_id: i16, size: i16) -> (index: Option<usize>)
        ensures
            index == self.override_index(font_id, size),
    {
        match self.override_faces.get(&(font_id, size)) {
            Some(index) => Some(*index),
            None => None,
        }
    }

    fn outline_position(&self, font_id: i16, size: i16) -> (index: Option<usize>)
        ensures
            index == self.outline_index(font_id, size),
    {
        match self.outline_faces.get(&(font_id, size)) {
            Some(faces) => Some(faces.0),
            None => None,
        }
    }

    fn face_position(&self, font_id: i16, size: i16) -> (index: Option<usize>)
        requires
            self.wf(),
        ensures
            index == self.face_index(font_id, size),
            index matches Some(index) ==> index < self.faces@.len(),
    {
        let wanted: i16 = if size == 0 {
            DEFAULT_FONT_SIZE
        } else {
            size
        };
        if let Some(index) = self.override_position(font_id, wanted) {
            assert(self.override_faces@.dom().contains((font_id, wanted)));
            return Some(index);
        }
        if let Some(index) = self.resource_faces.get(&(font_id, wanted)) {
            assert(self.resource_faces@.dom().contains((font_id, wanted)));
            return Some(*index);
        }
        if let Some(index) = self.guest_outline_faces.get(&(font_id, wanted)) {
            assert(self.guest_outline_faces@.dom().contains((font_id, wanted)));
            return Some(*index);
        }
        let index = self.outline_position(font_id, wanted);
        assert(self.outline_faces@.dom().contains((font_id, wanted)) ==> self.outline_faces@[(
            font_id,
            wanted,
        )].0 < self.faces@.len());
        index
    }

    /// The face of an exact request.
    pub fn get_font_face(&self, font_id: i16, size: i16) -> (face: Option<&FontFace>)
        requires
            self.wf(),
            self.overrides_resolved,
        ensures
            match face {
                Some(face) => {
                    &&& self.face_index(font_id, size) is Some
                    &&& *face == self.faces@[self.face_index(font_id, size)->0 as int]
                },
                None => self.face_index(font_id, size) is None,
            },
    {
        match self.face_position(font_id, size) {
            Some(index) => Some(&self.faces[index]),
            None => None,
        }
    }

    fn closest_font_face(&self, font_id: i16, size: i16) -> (index: Option<usize>)
        requires
            self.wf(),
        ensures
            index == closest_strike(self.resource_faces@, font_id, size),
            index matches Some(index) ==> index < self.faces@.len(),
    {
        let count: usize = self.resource_faces.count();
        let ghost keys = self.resource_faces.key_list();
        let ghost table = self.resource_faces@;
        let mut best: Option<(i16, usize)> = None;
        let mut i: usize = 0;
        while i < count
            invariant
                i <= count,
                count == keys.len(),
                keys == self.resource_faces.key_list(),
                table == self.resource_faces@,
                forall|j: int| 0 <= j < keys.len() ==> table.dom().contains(#[trigger] keys[j]),
                match best {
                    Some(entry) => {
                        &&& table.dom().contains((font_id, entry.0))
                        &&& table[(font_id, entry.0)] == entry.1
                        &&& forall|j: int|
                            0 <= j < i && (#[trigger] keys[j]).0 == font_id ==> suits_better(
                                size,
                                entry.0,
                                keys[j].1,
                            )
                    },
                    None => forall|j: int| 0 <= j < i ==> (#[trigger] keys[j]).0 != font_id,
                },
            decreases count - i,
        {
            let (key, index) = self.resource_faces.entry_at(i);
            if key.0 == font_id {
                let candidate: i16 = key.1;
                let better = match best {
                    None => true,
                    Some(entry) => nearer(size, candidate, entry.0),
                };
                if better {
                    best = Some((candidate, *index));
                }
            }
            i += 1;
        }
        match best {
            Some(entry) => {
                proof {
                    assert forall|other: i16| #[trigger]
                        table.dom().contains((font_id, other)) implies suits_better(
                        size,
                        entry.0,
                        other,
                    ) by {
                        assert(keys.contains((font_id, other)));
                    }
                    assert(is_closest(table, font_id, size, entry.0));
                    let chosen = choose|chosen: i16| is_closest(table, font_id, size, chosen);
                    lemma_closest_is_one(table, font_id, size, entry.0, chosen);
                }
                Some(entry.1)
            },
            None => {
                proof {
                    if has_strike(table, font_id) {
                        let other = choose|other: i16| #[trigger]
                            table.dom().contains((font_id, other));
                        assert(keys.contains((font_id, other)));
                    }
                }
                None
            },
        }
    }

    fn resolved_position(&self, font_id: i16, size: i16) -> (index: Option<usize>)
        requires
            self.wf(),
        ensures
            index == self.resolved_index(font_id, size),
            index matches Some(index) ==> index < self.faces@.len(),
    {
        let wanted: i16 = if size == 0 {
            DEFAULT_FONT_SIZE
        } else if size < 1 {
            1
        } else {
            size
        };
        if let Some(index) = self.face_position(font_id, wanted) {
            return Some(index);
        }
        if let Some(index) = self.closest_font_face(font_id, wanted) {
            return Some(index);
        }
        let bounded: i16 = if wanted < LARGEST_OUTLINE_SIZE {
            wanted
        } else {
            LARGEST_OUTLINE_SIZE
        };
        assert(self.outline_faces@.dom().contains((font_id, bounded)) ==> self.outline_faces@[(
            font_id,
            bounded,
        )].0 < self.faces@.len());
        assert(self.outline_faces@.dom().contains((FONT_APPLICATION, bounded))
            ==> self.outline_faces@[(FONT_APPLICATION, bounded)].0 < self.faces@.len());
        if let Some(index) = self.outline_position(font_id, bounded) {
            return Some(index);
        }
        self.outline_position(FONT_APPLICATION, bounded)
    }

    /// Whether any request for a family and size finds a face.
    pub fn can_resolve(&self, font_id: i16, size: i16) -> (can: bool)
        requires
            self.wf(),
        ensures
            can == (self.resolved_index(font_id, size) is Some),
    {
        self.resolved_position(font_id, size).is_some()
    }

    /// The face of a request: the exact one, the closest strike of the
    /// family, its bundled outline or that of the application font.
    pub fn get_font_face_or_default(&self, font_id: i16, size: i16) -> (face: &FontFace)
        requires
            self.wf(),
            self.overrides_resolved,
            self.resolved_index(font_id, size) is Some,
        ensures
            *face == self.faces@[self.resolved_index(font_id, size)->0 as int],
    {
        let index: usize = self.resolved_position(font_id, size).unwrap();
        &self.faces[index]
    }

    /// The face of a request and the whole number that it is enlarged by.
    pub fn get_font_face_scaled(&self, font_id: i16, size: i16) -> (scaled: (&FontFace, i16))
        requires
            self.wf(),
            self.overrides_resolved,
            self.resolved_index(font_id, size) is Some,
        ensures
            *scaled.0 == self.faces@[self.resolved_index(font_id, size)->0 as int],
            scaled.1 == at_least_one(
                (at_least_one(size) / at_least_one(scaled.0.size)) as i16,
            ),
    {
        let face = self.get_font_face_or_default(font_id, size);
        let wanted: i16 = if size < 1 {
            1
        } else {
            size
        };
        let present: i16 = if face.size < 1 {
            1
        } else {
            face.size
        };
        let ratio: i16 = wanted / present;
        proof {
            vstd::arithmetic::div_mod::lemma_div_pos_is_pos(wanted as int, present as int);
            vstd::arithmetic::div_mod::lemma_div_is_ordered_by_denominator(
                wanted as int,
                1,
                present as int,
            );
            vstd::arithmetic::div_mod::lemma_div_by_self(1);
        }
        (
            face,
            if ratio < 1 {
                1
            } else {
                ratio
            },
        )
    }

    /// The face of a request with the ratio that it is scaled by: the size
    /// asked for over the size of the face.
    pub fn get_font_face_scale_ratio(&self, font_id: i16, size: i16) -> (scaled: (
        &FontFace,
        i32,
        i32,
    ))
        requires
            self.wf(),
            self.overrides_resolved,
            self.resolved_index(font_id, size) is Some,
        ensures
            *scaled.0 == self.faces@[self.resolved_index(font_id, size)->0 as int],
            scaled.1 == drawable_size(size),
            scaled.2 == at_least_one(scaled.0.size),
    {
        let wanted: i16 = if size == 0 {
            DEFAULT_FONT_SIZE
        } else if size < 1 {
            1
        } else {
            size
        };
        let (face, _) = self.get_font_face_scaled(font_id, wanted);
        let present: i16 = if face.size < 1 {
            1
        } else {
            face.size
        };
        (face, wanted as i32, present as i32)
    }

    /// The glyph of a Mac Roman code for a request, with the data that it
    /// indexes.
    pub fn get_macroman_glyph(&self, font_id: i16, size: i16, mac_code: u8) -> (found: Option<
        (&Glyph, &[u8]),
    >)
        requires
            self.wf(),
            self.overrides_resolved,
            self.resolved_index(font_id, size) is Some,
        ensures
            match found {
                Some(found) => self.macroman_glyph(font_id, size, mac_code) == Some(
                    (*found.0, found.1@),
                ),
                None => self.macroman_glyph(font_id, size, mac_code) is None,
            },
    {
        let resolved = self.get_font_face_or_default(font_id, size);
        let key = (resolved.font_id, resolved.size);
        if let Some(index) = self.resource_macroman_faces.get(&key) {
            assert(self.resource_macroman_faces@.dom().contains(key));
            let found = find_code(&self.macroman_faces[*index], mac_code);
            if found.is_some() {
                return found;
            }
        }
        if let Some(index) = self.guest_macroman_faces.get(&key) {
            assert(self.guest_macroman_faces@.dom().contains(key));
            let found = find_code(&self.macroman_faces[*index], mac_code);
            if found.is_some() {
                return found;
            }
        }
        if self.override_position(key.0, key.1).is_none() && !self.resource_faces.contains_key(
            &key,
        ) {
            if let Some(faces) = self.outline_faces.get(&key) {
                assert(self.outline_faces@.dom().contains(key));
                return find_code(&self.macroman_faces[faces.1], mac_code);
            }
        }
        None
    }
}

/// Two optional directories agree.
pub open spec fn same_directory(a: Option<String>, b: Option<String>) -> bool {
    match (a, b) {
        (Some(a), Some(b)) => a@ == b@,
        (None, None) => true,
        _ => false,
    }
}

fn directories_agree(a: &Option<String>, b: &Option<String>) -> (agree: bool)
    ensures
        agree == same_directory(*a, *b),
{
    match (a, b) {
        (Some(a), Some(b)) => *a == *b,
        (None, None) => true,
        _ => false,
    }
}

fn nearer(size: i16, candidate: i16, other: i16) -> (better: bool)
    ensures
        better == suits_better(size, candidate, other),
{
    let wanted: i32 = size as i32;
    let own: i32 = candidate as i32 - wanted;
    let theirs: i32 = other as i32 - wanted;
    let own_distance: i32 = if own < 0 {
        -own
    } else {
        own
    };
    let their_distance: i32 = if theirs < 0 {
        -theirs
    } else {
        theirs
    };
    own_distance < their_distance || (own_distance == their_distance && candidate >= other)
}

/// No two sizes suit a request best.
pub proof fn lemma_closest_is_one(
    table: Map<(i16, i16), usize>,
    font_id: i16,
    size: i16,
    a: i16,
    b: i16,
)
    requires
        is_closest(table, font_id, size, a),
        is_closest(table, font_id, size, b),
    ensures
        a == b,
{
    assert(table.dom().contains((font_id, a)));
    assert(table.dom().contains((font_id, b)));
}

fn find_code(face: &MacRomanFace, mac_code: u8) -> (found: Option<(&Glyph, &[u8])>)
    ensures
        match found {
            Some(found) => glyph_in(*face, mac_code) == Some((*found.0, found.1@)),
            None => glyph_in(*face, mac_code) is None,
        },
{
    let count: usize = face.glyphs.len();
    let mut i: usize = 0;
    while i < count
        invariant
            i <= count,
            count == face.glyphs@.len(),
            code_position(*face, mac_code, 0) == code_position(*face, mac_code, i as nat),
        decreases count - i,
    {
        if face.glyphs[i].mac_code == mac_code {
            return Some((&face.glyphs[i].glyph, face.data.as_slice()));
        }
        i += 1;
    }
    None
}

/// No italic strikes exist: an italic is made from the plain face.
pub fn get_italic_glyph<'a>(_font_id: i16, _size: i16, _ch: char) -> (glyph: Option<
    (&'a Glyph, &'a [u8]),
>)
    ensures
        glyph is None,
{
    None
}

/// An override is what its request finds, whatever the guest and the bundled
/// outlines supply.
pub proof fn override_wins(catalogue: &FontCatalogue, font_id: i16, size: i16)
    requires
        catalogue.override_index(font_id, requested_size(size)) is Some,
    ensures
        catalogue.face_index(font_id, size) == catalogue.override_index(
            font_id,
            requested_size(size),
        ),
{
}

/// A strike of the guest wins over every outline, also over one that was
/// rasterized before it.
pub proof fn guest_strike_wins_over_outlines(catalogue: &FontCatalogue, font_id: i16, size: i16)
    requires
        catalogue.override_index(font_id, requested_size(size)) is None,
        catalogue.resource_faces@.dom().contains((font_id, requested_size(size))),
    ensures
        catalogue.face_index(font_id, size) == Some(
            catalogue.resource_faces@[(font_id, requested_size(size))],
        ),
{
}

/// A catalogue with the application font's outlines finds a face for every
/// request.
pub proof fn every_request_finds_a_face(catalogue: &FontCatalogue, font_id: i16, size: i16)
    requires
        forall|outline_size: i16|
            1 <= outline_size <= LARGEST_OUTLINE_SIZE
                ==> #[trigger] catalogue.outline_faces@.dom().contains(
                (FONT_APPLICATION, outline_size),
            ),
    ensures
        catalogue.resolved_index(font_id, size) is Some,
{
    let wanted = drawable_size(size);
    let bounded: i16 = if wanted < LARGEST_OUTLINE_SIZE {
        wanted
    } else {
        LARGEST_OUTLINE_SIZE
    };
    assert(catalogue.outline_faces@.dom().contains((FONT_APPLICATION, bounded)));
}

/// The face of an exact request has the family and size that were asked for.
pub proof fn exact_face_has_the_request(catalogue: &FontCatalogue, font_id: i16, size: i16)
    requires
        catalogue.wf(),
        catalogue.face_index(font_id, size) is Some,
    ensures
        catalogue.holds_face(
            catalogue.face_index(font_id, size)->0,
            (font_id, requested_size(size)),
        ),
{
    let key = (font_id, requested_size(size));
    assert(catalogue.override_faces@.dom().contains(key) ==> catalogue.holds_face(
        catalogue.override_faces@[key],
        key,
    ));
    assert(catalogue.resource_faces@.dom().contains(key) ==> catalogue.holds_face(
        catalogue.resource_faces@[key],
        key,
    ));
    assert(catalogue.guest_outline_faces@.dom().contains(key) ==> catalogue.holds_face(
        catalogue.guest_outline_faces@[key],
        key,
    ));
    assert(catalogue.outline_faces@.dom().contains(key) ==> catalogue.holds_face(
        catalogue.outline_faces@[key].0,
        key,
    ));
}

/// The face that a request falls back to is of its family or of the
/// application font, at the size that was asked for or the greatest one.
pub proof fn fallback_face_is_of_the_family(catalogue: &FontCatalogue, font_id: i16, size: i16)
    requires
        catalogue.wf(),
        catalogue.fallback_index(font_id, size) is Some,
    ensures
        ({
            let face = catalogue.faces@[catalogue.fallback_index(font_id, size)->0 as int];
            &&& catalogue.fallback_index(font_id, size)->0 < catalogue.faces@.len()
            &&& face.font_id == font_id || face.font_id == FONT_APPLICATION
            &&& face.size == (if size < LARGEST_OUTLINE_SIZE {
                size
            } else {
                LARGEST_OUTLINE_SIZE
            })
        }),
{
    let bounded: i16 = if size < LARGEST_OUTLINE_SIZE {
        size
    } else {
        LARGEST_OUTLINE_SIZE
    };
    assert(catalogue.outline_faces@.dom().contains((font_id, bounded)) ==> catalogue.holds_face(
        catalogue.outline_faces@[(font_id, bounded)].0,
        (font_id, bounded),
    ));
    assert(catalogue.outline_faces@.dom().contains((FONT_APPLICATION, bounded))
        ==> catalogue.holds_face(
        catalogue.outline_faces@[(FONT_APPLICATION, bounded)].0,
        (FONT_APPLICATION, bounded),
    ));
}

proof fn lemma_complete_position(extension: MacRomanFace, mac_code: u8, from: nat)
    requires
        crate::font_raster::extension_complete(extension),
        from <= 128,
        mac_code < 0x80 || from <= mac_code - 0x80,
    ensures
        code_position(extension, mac_code, from) == (if mac_code < 0x80 {
            128
        } else {
            mac_code - 0x80
        }),
    decreases 128 - from,
{
    if from < 128 {
        assert(extension.glyphs@[from as int].mac_code == 0x80 + from);
        if mac_code != 0x80 + from {
            lemma_complete_position(extension, mac_code, from + 1);
        }
    }
}

/// Where a bundled outline alone draws a family, exactly the codes from 0x80
/// on have an extended glyph; its mask lies within its data, which marks each
/// pixel with 0 or 255.
pub proof fn bundled_extension_has_the_upper_codes(
    catalogue: &FontCatalogue,
    font_id: i16,
    size: i16,
    mac_code: u8,
)
    requires
        catalogue.wf(),
        catalogue.resolved_index(font_id, size) is Some,
        ({
            let face = catalogue.faces@[catalogue.resolved_index(font_id, size)->0 as int];
            let key = (face.font_id, face.size);
            &&& catalogue.outline_faces@.dom().contains(key)
            &&& !catalogue.override_faces@.dom().contains(key)
            &&& !catalogue.resource_faces@.dom().contains(key)
            &&& !catalogue.resource_macroman_faces@.dom().contains(key)
            &&& !catalogue.guest_macroman_faces@.dom().contains(key)
        }),
    ensures
        catalogue.macroman_glyph(font_id, size, mac_code) is Some <==> mac_code >= 0x80,
        catalogue.macroman_glyph(font_id, size, mac_code) matches Some(found) ==> {
            &&& found.0.data_offset + found.0.width * found.0.height <= found.1.len()
            &&& forall|i: int|
                0 <= i < found.1.len() ==> (#[trigger] found.1[i]) == 0 || found.1[i] == 255
        },
{
    let face = catalogue.faces@[catalogue.resolved_index(font_id, size)->0 as int];
    let key = (face.font_id, face.size);
    assert(catalogue.outline_faces@.dom().contains(key));
    let extension = catalogue.macroman_faces@[catalogue.outline_faces@[key].1 as int];
    lemma_complete_position(extension, mac_code, 0);
    if mac_code >= 0x80 {
        assert(extension.glyphs@[mac_code - 0x80].mac_code == mac_code);
    }
}

/// The extension of an outline of the guest wins over the bundled one.
pub proof fn guest_extension_wins(
    catalogue: &FontCatalogue,
    font_id: i16,
    size: i16,
    mac_code: u8,
)
    requires
        catalogue.resolved_index(font_id, size) is Some,
        ({
            let face = catalogue.faces@[catalogue.resolved_index(font_id, size)->0 as int];
            let key = (face.font_id, face.size);
            &&& !catalogue.resource_macroman_faces@.dom().contains(key)
            &&& catalogue.guest_macroman_faces@.dom().contains(key)
            &&& glyph_in(
                catalogue.macroman_faces@[catalogue.guest_macroman_faces@[key] as int],
                mac_code,
            ) is Some
        }),
    ensures
        ({
            let face = catalogue.faces@[catalogue.resolved_index(font_id, size)->0 as int];
            let key = (face.font_id, face.size);
            catalogue.macroman_glyph(font_id, size, mac_code) == glyph_in(
                catalogue.macroman_faces@[catalogue.guest_macroman_faces@[key] as int],
                mac_code,
            )
        }),
{
}

} // verus!
