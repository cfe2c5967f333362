use vstd::prelude::*;

use crate::id_map::{has_key, key_index, keys_distinct, listed_consistently, lookup, IdMap};
use crate::rng::random_usize;

verus! {

/// A unique identifier given to each texture when it is added to a
/// texture list.
#[derive(Debug, Clone, Copy, PartialEq, Eq, Structural, PartialOrd, Ord, Hash)]
pub struct TextureID(usize);

impl TextureID {
    pub closed spec fn spec_raw(&self) -> usize {
        self.0
    }

    /// The raw value of the identifier.
    pub fn get_raw(&self) -> (res: usize)
        ensures
            res == self.spec_raw(),
    {
        self.0
    }
}

/// The raw values of identifiers, in order.
pub open spec fn raw_texture_ids(ids: Seq<TextureID>) -> Seq<usize> {
    ids.map_values(|id: TextureID| id.spec_raw())
}

/// The textures by identifier and the order in which they were added.
pub struct TextureList<T> {
    /// all textures indexed by their TextureID
    textures: IdMap<T>,
    /// all texture ids in the order of addition of textures
    texture_ids: Vec<TextureID>,
}

impl<T> TextureList<T> {
    pub closed spec fn spec_textures(&self) -> Seq<(usize, T)> {
        self.textures@
    }

    pub closed spec fn spec_texture_ids(&self) -> Seq<TextureID> {
        self.texture_ids@
    }

    /// No two textures share an identifier.
    pub open spec fn well_formed(&self) -> bool {
        keys_distinct(self.spec_textures())
    }

    /// The order of addition lists exactly the stored textures, each
    /// once. Every operation keeps this, except adding a texture under a
    /// randomly drawn identifier that is already in use.
    pub open spec fn ids_consistent(&self) -> bool {
        listed_consistently(self.spec_textures(), raw_texture_ids(self.spec_texture_ids()))
    }

    pub fn new() -> (res: Self)
        ensures
            res.well_formed(),
            res.ids_consistent(),
            res.spec_textures() == Seq::<(usize, T)>::empty(),
            res.spec_texture_ids() == Seq::<TextureID>::empty(),
    {
        let res = Self { textures: IdMap::new(), texture_ids: Vec::new() };
        assert(raw_texture_ids(res.texture_ids@) =~= Seq::<usize>::empty());
        res
    }

    /// The textures, in the order of their entries.
    pub fn get_textures(&self) -> (res: Vec<&T>)
        ensures
            res@.len() == self.spec_textures().len(),
            forall|i: int| 0 <= i < res@.len() ==> *#[trigger] res@[i] == self.spec_textures()[i].1,
    {
        self.textures.values()
    }

    /// The texture stored under `texture_id`, if any.
    pub fn get_texture(&self, texture_id: TextureID) -> (res: Option<&T>)
        requires
            self.well_formed(),
        ensures
            res is Some <==> has_key(self.spec_textures(), texture_id.spec_raw()),
            res matches Some(t) ==> Some(*t) == lookup(self.spec_textures(), texture_id.spec_raw()),
    {
        self.textures.get(texture_id.0)
    }

    /// Mutable access to the texture stored under `texture_id`, if any.
    pub fn get_texture_mut(&mut self, texture_id: TextureID) -> (res: Option<&mut T>)
        requires
            old(self).well_formed(),
        ensures
            res is Some <==> has_key(old(self).spec_textures(), texture_id.spec_raw()),
            res matches Some(t) ==> Some(*t) == lookup(
                old(self).spec_textures(),
                texture_id.spec_raw(),
            ) && final(self).spec_textures() == old(self).spec_textures().update(
                key_index(old(self).spec_textures(), texture_id.spec_raw()),
                (texture_id.spec_raw(), *final(t)),
            ),
            res is None ==> final(self).spec_textures() == old(self).spec_textures(),
            final(self).well_formed(),
            old(self).ids_consistent() ==> final(self).ids_consistent(),
            final(self).spec_texture_ids() == old(self).spec_texture_ids(),
    {
        proof {
            if old(self).ids_consistent() && has_key(old(self).textures@, texture_id.0) {
                let x = key_index(old(self).textures@, texture_id.0);
                let ids = raw_texture_ids(old(self).texture_ids@);
                assert forall|v: T| #[trigger]
                    listed_consistently(old(self).textures@.update(x, (texture_id.0, v)), ids) by {
                    let t = old(self).textures@.update(x, (texture_id.0, v));
                    crate::id_map::lemma_listed_same_keys(old(self).textures@, t, ids);
                }
            }
        }
        self.textures.get_mut(texture_id.0)
    }

    /// Adds the texture under a new random identifier and returns it.
    pub fn add_texture(&mut self, texture: T) -> (res: TextureID)
        requires
            old(self).well_formed(),
        ensures
            final(self).well_formed(),
            old(self).ids_consistent() && !old(self).spec_texture_ids().contains(res)
                ==> final(self).ids_consistent(),
            final(self).spec_texture_ids() == old(self).spec_texture_ids().push(res),
            lookup(final(self).spec_textures(), res.spec_raw()) == Some(texture),
            has_key(old(self).spec_textures(), res.spec_raw()) ==> final(self).spec_textures()
                == old(self).spec_textures().update(
                key_index(old(self).spec_textures(), res.spec_raw()),
                (res.spec_raw(), texture),
            ),
            !has_key(old(self).spec_textures(), res.spec_raw()) ==> final(self).spec_textures()
                == old(self).spec_textures().push((res.spec_raw(), texture)),
            forall|k: usize|
                k != res.spec_raw() ==> lookup(final(self).spec_textures(), k) == lookup(
                    old(self).spec_textures(),
                    k,
                ),
    {
        let texture_id = TextureID(random_usize());
        let ghost before = self.textures@;
        self.textures.insert(texture_id.0, texture);
        proof {
            assert forall|k: usize| k != texture_id.0 implies lookup(self.textures@, k) == lookup(
                before,
                k,
            ) by {
                crate::id_map::law_lookup_after_insert(before, texture_id.0, texture, self.textures@, k);
            }
            crate::id_map::law_lookup_after_insert(
                before,
                texture_id.0,
                texture,
                self.textures@,
                if texture_id.0 == 0 { 1 } else { 0 },
            );
        }
        self.texture_ids.push(texture_id);
        proof {
            assert(raw_texture_ids(self.texture_ids@) =~= raw_texture_ids(old(self).texture_ids@).push(
                texture_id.0,
            ));
            if old(self).ids_consistent() && !old(self).texture_ids@.contains(texture_id) {
                let raw_old = raw_texture_ids(old(self).texture_ids@);
                if raw_old.contains(texture_id.0) {
                    let i = choose|i: int| 0 <= i < raw_old.len() && raw_old[i] == texture_id.0;
                    assert(old(self).texture_ids@[i] == texture_id);
                }
                crate::id_map::lemma_listed_after_push(old(self).textures@, raw_old, texture_id.0, texture);
            }
        }
        texture_id
    }

    /// Removes the texture: its identifier leaves the order of addition
    /// (the first occurrence) and the texture leaves the list. The
    /// texture must be in the list.
    pub fn delete_texture(&mut self, texture_id: TextureID)
        requires
            old(self).well_formed(),
            old(self).spec_texture_ids().contains(texture_id),
            has_key(old(self).spec_textures(), texture_id.spec_raw()),
        ensures
            final(self).well_formed(),
            old(self).ids_consistent() ==> final(self).ids_consistent(),
            exists|i: int|
                0 <= i < old(self).spec_texture_ids().len() && old(self).spec_texture_ids()[i]
                    == texture_id && (forall|j: int|
                    0 <= j < i ==> old(self).spec_texture_ids()[j] != texture_id)
                    && final(self).spec_texture_ids() == old(self).spec_texture_ids().remove(i),
            final(self).spec_textures() == old(self).spec_textures().remove(
                key_index(old(self).spec_textures(), texture_id.spec_raw()),
            ),
    {
        let mut i: usize = 0;
        while i < self.texture_ids.len()
            invariant
                i <= self.texture_ids@.len(),
                forall|j: int| 0 <= j < i ==> self.texture_ids@[j] != texture_id,
                self.texture_ids@.contains(texture_id),
            ensures
                i < self.texture_ids@.len(),
                self.texture_ids@[i as int] == texture_id,
                forall|j: int| 0 <= j < i ==> self.texture_ids@[j] != texture_id,
            decreases self.texture_ids@.len() - i,
        {
            if self.texture_ids[i] == texture_id {
                break;
            }
            i = i + 1;
        }
        let ghost raw_old = raw_texture_ids(self.texture_ids@);
        proof {
            if old(self).ids_consistent() {
                crate::id_map::lemma_listed_after_remove(self.textures@, raw_old, i as int);
            }
        }
        self.texture_ids.remove(i);
        proof {
            assert(raw_texture_ids(self.texture_ids@) =~= raw_old.remove(i as int));
        }
        let removed = self.textures.remove(texture_id.0);
        assert(removed is Some);
    }

    /// The identifiers of the textures in the order of their addition.
    pub fn get_texture_ids(&self) -> (res: &[TextureID])
        ensures
            res@ == self.spec_texture_ids(),
    {
        self.texture_ids.as_slice()
    }
}

/// Deleting the texture just added, when the identifier drawn for it
/// was new to the list, gives back the textures and their order of
/// addition as they were before.
pub proof fn law_delete_undoes_add<T>(
    before: TextureList<T>,
    added: TextureList<T>,
    after: TextureList<T>,
    id: TextureID,
    texture: T,
)
    requires
        before.well_formed(),
        !before.spec_texture_ids().contains(id),
        !has_key(before.spec_textures(), id.spec_raw()),
        added.spec_texture_ids() == before.spec_texture_ids().push(id),
        added.spec_textures() == before.spec_textures().push((id.spec_raw(), texture)),
        exists|i: int|
            0 <= i < added.spec_texture_ids().len() && added.spec_texture_ids()[i] == id && (forall|
                j: int,
            | 0 <= j < i ==> added.spec_texture_ids()[j] != id) && after.spec_texture_ids()
                == added.spec_texture_ids().remove(i),
        after.spec_textures() == added.spec_textures().remove(
            key_index(added.spec_textures(), id.spec_raw()),
        ),
    ensures
        after.spec_texture_ids() == before.spec_texture_ids(),
        after.spec_textures() == before.spec_textures(),
{
    crate::id_map::law_remove_undoes_insert(before.spec_textures(), id.spec_raw(), texture);
    let i = choose|i: int|
        0 <= i < added.spec_texture_ids().len() && added.spec_texture_ids()[i] == id && (forall|
            j: int,
        | 0 <= j < i ==> added.spec_texture_ids()[j] != id) && after.spec_texture_ids()
            == added.spec_texture_ids().remove(i);
    crate::id_map::law_remove_first_undoes_push(before.spec_texture_ids(), id, i);
}

} // verus!
