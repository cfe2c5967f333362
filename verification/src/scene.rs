use vstd::prelude::*;

use crate::id_map::{
    all_carry, has_key, key_index, keys_distinct, listed_consistently, lookup, IdMap,
};
use crate::rng::random_usize;

verus! {

/// Identifier of an object of a scene.
#[derive(Debug, Clone, Copy, PartialEq, Eq, Structural, Hash)]
pub struct ObjectID(usize);

impl ObjectID {
    pub closed spec fn spec_raw(&self) -> usize {
        self.0
    }

    /// The identifier with the given raw value.
    pub fn from_raw(raw: usize) -> (res: Self)
        ensures
            res.spec_raw() == raw,
    {
        ObjectID(raw)
    }

    /// The raw value of the identifier.
    pub fn get_raw(&self) -> (res: usize)
        ensures
            res == self.spec_raw(),
    {
        self.0
    }
}

/// What a scene needs of its objects: an object remembers the
/// identifier it is stored under, and can move its geometry into world
/// space and back.
pub trait Object: Sized {
    /// The identifier the object was last told, if any.
    spec fn spec_object_id(&self) -> Option<ObjectID>;

    /// Tells the object the identifier it is stored under.
    fn set_object_id(&mut self, object_id: ObjectID)
        ensures
            final(self).spec_object_id() == Some(object_id),
    ;

    /// The identifier the object was told; it must have been told one.
    fn get_object_id(&self) -> (res: ObjectID)
        requires
            self.spec_object_id() is Some,
        ensures
            self.spec_object_id() == Some(res),
    ;

    /// The object with its geometry moved into world space.
    spec fn spec_with_model_applied(&self) -> Self;

    /// The object with its geometry moved back into its own space.
    spec fn spec_with_model_unapplied(&self) -> Self;

    /// Moves the object's geometry into world space.
    fn apply_model_matrix(&mut self)
        ensures
            *final(self) == old(self).spec_with_model_applied(),
            final(self).spec_object_id() == old(self).spec_object_id(),
    ;

    /// Moves the object's geometry back into its own space.
    fn unapply_model_matrix(&mut self)
        ensures
            *final(self) == old(self).spec_with_model_unapplied(),
            final(self).spec_object_id() == old(self).spec_object_id(),
    ;
}

/// The object moved into world space (`apply`) or back into its own
/// space.
pub open spec fn moved_object<O: Object>(o: O, apply: bool) -> O {
    if apply {
        o.spec_with_model_applied()
    } else {
        o.spec_with_model_unapplied()
    }
}

/// The entries with every object moved into world space (`apply`) or
/// back, each under its own key.
pub open spec fn moved_objects<O: Object>(s: Seq<(usize, O)>, apply: bool) -> Seq<(usize, O)> {
    s.map_values(|e: (usize, O)| (e.0, moved_object(e.1, apply)))
}

/// The object of the entry carries the entry's key as its identifier.
pub open spec fn carries_id<O: Object>(e: (usize, O)) -> bool {
    &&& e.1.spec_object_id() is Some
    &&& e.1.spec_object_id().unwrap().spec_raw() == e.0
}

/// The raw values of identifiers, in order.
pub open spec fn raw_object_ids(ids: Seq<ObjectID>) -> Seq<usize> {
    ids.map_values(|id: ObjectID| id.spec_raw())
}

proof fn lemma_object_id_raw(a: ObjectID, b: ObjectID)
    ensures
        a.spec_raw() == b.spec_raw() <==> a == b,
{
}

/// Whether an entry's object carries the entry's key as its identifier.
pub open spec fn carries_object_id<O: Object>() -> spec_fn((usize, O)) -> bool {
    |e: (usize, O)| carries_id(e)
}

/// The keys of a sequence of entries, in order.
pub open spec fn keys_of<V>(s: Seq<(usize, V)>) -> Seq<usize> {
    s.map_values(|e: (usize, V)| e.0)
}

/// The objects of a scene with their identifiers, the order in which
/// they were added, an acceleration structure `B` over them (to be
/// rebuilt whenever the objects change), whether the objects' model
/// matrices are applied, and the selected object.
pub struct Scene<O, B> {
    /// all objects indexed by their ObjectID
    objects: IdMap<O>,
    /// all object ids in the order of addition of objects
    object_ids: Vec<ObjectID>,
    /// acceleration structure over all the objects; the user must
    /// build it again when it is `None`
    bvh: Option<B>,
    /// true if model matrices are currently applied
    model_matrices_applied: bool,
    /// selected object
    selected_object: Option<ObjectID>,
}

impl<O: Object, B> Scene<O, B> {
    pub closed spec fn spec_objects(&self) -> Seq<(usize, O)> {
        self.objects@
    }

    pub closed spec fn spec_object_ids(&self) -> Seq<ObjectID> {
        self.object_ids@
    }

    pub closed spec fn spec_bvh(&self) -> Option<B> {
        self.bvh
    }

    pub closed spec fn spec_model_matrices_applied(&self) -> bool {
        self.model_matrices_applied
    }

    pub closed spec fn spec_selected_object(&self) -> Option<ObjectID> {
        self.selected_object
    }

    /// No two objects share an identifier.
    pub open spec fn well_formed(&self) -> bool {
        keys_distinct(self.spec_objects())
    }

    /// The order of addition lists exactly the stored objects, each
    /// once, and every stored object carries the identifier it is
    /// stored under. Every operation keeps this, except adding an object
    /// under a randomly drawn identifier that is already in use.
    pub open spec fn ids_consistent(&self) -> bool {
        &&& listed_consistently(self.spec_objects(), raw_object_ids(self.spec_object_ids()))
        &&& all_carry(self.spec_objects(), carries_object_id())
    }

    pub fn new() -> (res: Self)
        ensures
            res.well_formed(),
            res.ids_consistent(),
            res.spec_objects() == Seq::<(usize, O)>::empty(),
            res.spec_object_ids() == Seq::<ObjectID>::empty(),
            res.spec_bvh() is None,
            !res.spec_model_matrices_applied(),
            res.spec_selected_object() is None,
    {
        let res = Self {
            objects: IdMap::new(),
            object_ids: Vec::new(),
            bvh: None,
            model_matrices_applied: false,
            selected_object: None,
        };
        assert(raw_object_ids(res.object_ids@) =~= Seq::<usize>::empty());
        res
    }

    /// Adds the object under a new random identifier, tells the object
    /// its identifier and drops the acceleration structure.
    pub fn add_object(&mut self, object: O) -> (res: ObjectID)
        requires
            old(self).well_formed(),
        ensures
            final(self).well_formed(),
            old(self).ids_consistent() && !old(self).spec_object_ids().contains(res)
                ==> final(self).ids_consistent(),
            final(self).spec_object_ids() == old(self).spec_object_ids().push(res),
            has_key(final(self).spec_objects(), res.spec_raw()),
            lookup(final(self).spec_objects(), res.spec_raw()) matches Some(stored)
                && stored.spec_object_id() == Some(res),
            exists|stored: O|
                #![trigger stored.spec_object_id()]
                stored.spec_object_id() == Some(res) && if has_key(
                    old(self).spec_objects(),
                    res.spec_raw(),
                ) {
                    final(self).spec_objects() == old(self).spec_objects().update(
                        key_index(old(self).spec_objects(), res.spec_raw()),
                        (res.spec_raw(), stored),
                    )
                } else {
                    final(self).spec_objects() == old(self).spec_objects().push(
                        (res.spec_raw(), stored),
                    )
                },
            has_key(old(self).spec_objects(), res.spec_raw()) ==> keys_of(final(self).spec_objects())
                == keys_of(old(self).spec_objects()),
            !has_key(old(self).spec_objects(), res.spec_raw()) ==> keys_of(
                final(self).spec_objects(),
            ) == keys_of(old(self).spec_objects()).push(res.spec_raw()),
            forall|k: usize|
                k != res.spec_raw() ==> lookup(final(self).spec_objects(), k) == lookup(
                    old(self).spec_objects(),
                    k,
                ),
            final(self).spec_bvh() is None,
            final(self).spec_model_matrices_applied() == old(self).spec_model_matrices_applied(),
            final(self).spec_selected_object() == old(self).spec_selected_object(),
    {
        let mut object = object;
        let object_id = ObjectID::from_raw(random_usize());
        object.set_object_id(object_id);
        let ghost before = self.objects@;
        self.objects.insert(object_id.0, object);
        proof {
            assert forall|k: usize| k != object_id.0 implies lookup(self.objects@, k) == lookup(
                before,
                k,
            ) by {
                crate::id_map::law_lookup_after_insert(before, object_id.0, object, self.objects@, k);
            }
            crate::id_map::law_lookup_after_insert(
                before,
                object_id.0,
                object,
                self.objects@,
                if object_id.0 == 0 { 1 } else { 0 },
            );
            assert(has_key(self.objects@, object_id.0));
            assert(keys_of(self.objects@) =~= (if has_key(before, object_id.0) {
                keys_of(before)
            } else {
                keys_of(before).push(object_id.0)
            }));
        }
        self.object_ids.push(object_id);
        self.bvh = None;
        proof {
            assert(object.spec_object_id() == Some(object_id));
            assert(raw_object_ids(self.object_ids@) =~= raw_object_ids(old(self).object_ids@).push(
                object_id.0,
            ));
            if old(self).ids_consistent() && !old(self).object_ids@.contains(object_id) {
                let raw_old = raw_object_ids(old(self).object_ids@);
                if raw_old.contains(object_id.0) {
                    let i = choose|i: int| 0 <= i < raw_old.len() && raw_old[i] == object_id.0;
                    lemma_object_id_raw(old(self).object_ids@[i], object_id);
                    assert(old(self).object_ids@[i] == object_id);
                }
                crate::id_map::lemma_listed_after_push(old(self).objects@, raw_old, object_id.0, object);
                assert(self.objects@ == old(self).objects@.push((object_id.0, object)));
                crate::id_map::lemma_carry_after_push(
                    old(self).objects@,
                    carries_object_id(),
                    (object_id.0, object),
                );
            }
        }
        object_id
    }

    /// Removes the object from the scene and returns it, if it is
    /// stored; its identifier leaves the order of addition (the first
    /// occurrence) and, when an object was removed, the acceleration
    /// structure is dropped. The identifier must be one of the scene's.
    pub fn delete_object(&mut self, object_id: ObjectID) -> (res: Option<O>)
        requires
            old(self).well_formed(),
            old(self).spec_object_ids().contains(object_id),
        ensures
            final(self).well_formed(),
            old(self).ids_consistent() ==> final(self).ids_consistent() && (res matches Some(o)
                && o.spec_object_id() == Some(object_id)),
            res == lookup(old(self).spec_objects(), object_id.spec_raw()),
            exists|i: int|
                0 <= i < old(self).spec_object_ids().len() && old(self).spec_object_ids()[i]
                    == object_id && (forall|j: int|
                    0 <= j < i ==> old(self).spec_object_ids()[j] != object_id)
                    && final(self).spec_object_ids() == old(self).spec_object_ids().remove(i),
            has_key(old(self).spec_objects(), object_id.spec_raw()) ==> final(self).spec_objects()
                == old(self).spec_objects().remove(
                key_index(old(self).spec_objects(), object_id.spec_raw()),
            ),
            !has_key(old(self).spec_objects(), object_id.spec_raw()) ==> final(self).spec_objects()
                == old(self).spec_objects(),
            res is Some ==> final(self).spec_bvh() is None,
            res is None ==> final(self).spec_bvh() == old(self).spec_bvh(),
            final(self).spec_model_matrices_applied() == old(self).spec_model_matrices_applied(),
            final(self).spec_selected_object() == old(self).spec_selected_object(),
    {
        let mut i: usize = 0;
        while i < self.object_ids.len()
            invariant
                i <= self.object_ids@.len(),
                forall|j: int| 0 <= j < i ==> self.object_ids@[j] != object_id,
                self.object_ids@.contains(object_id),
            ensures
                i < self.object_ids@.len(),
                self.object_ids@[i as int] == object_id,
                forall|j: int| 0 <= j < i ==> self.object_ids@[j] != object_id,
            decreases self.object_ids@.len() - i,
        {
            if self.object_ids[i] == object_id {
                break;
            }
            i = i + 1;
        }
        assert(i < self.object_ids@.len() && self.object_ids@[i as int] == object_id);
        let ghost raw_old = raw_object_ids(self.object_ids@);
        proof {
            if old(self).ids_consistent() {
                crate::id_map::lemma_listed_after_remove(self.objects@, raw_old, i as int);
            }
        }
        self.object_ids.remove(i);
        proof {
            assert(raw_object_ids(self.object_ids@) =~= raw_old.remove(i as int));
        }
        let object = self.objects.remove(object_id.0);
        proof {
            if old(self).ids_consistent() {
                let x = key_index(old(self).objects@, object_id.0);
                assert(carries_object_id()(old(self).objects@[x]));
                lemma_object_id_raw(old(self).objects@[x].1.spec_object_id().unwrap(), object_id);
                crate::id_map::lemma_carry_after_remove(old(self).objects@, carries_object_id(), x);
            }
        }
        if object.is_some() {
            self.bvh = None;
        }
        object
    }

    /// The objects of the scene, in the order of their entries.
    pub fn get_objects(&self) -> (res: Vec<&O>)
        ensures
            res@.len() == self.spec_objects().len(),
            forall|i: int| 0 <= i < res@.len() ==> *#[trigger] res@[i] == self.spec_objects()[i].1,
    {
        self.objects.values()
    }

    /// The object stored under `object_id`, if any.
    pub fn get_object(&self, object_id: ObjectID) -> (res: Option<&O>)
        requires
            self.well_formed(),
        ensures
            res is Some <==> has_key(self.spec_objects(), object_id.spec_raw()),
            res matches Some(o) ==> Some(*o) == lookup(self.spec_objects(), object_id.spec_raw()),
    {
        self.objects.get(object_id.0)
    }

    /// Mutable access to the object stored under `object_id`, if any.
    /// The caller must rebuild the acceleration structure if needed.
    pub fn get_object_mut(&mut self, object_id: ObjectID) -> (res: Option<&mut O>)
        requires
            old(self).well_formed(),
        ensures
            res is Some <==> has_key(old(self).spec_objects(), object_id.spec_raw()),
            res matches Some(o) ==> Some(*o) == lookup(
                old(self).spec_objects(),
                object_id.spec_raw(),
            ) && final(self).spec_objects() == old(self).spec_objects().update(
                key_index(old(self).spec_objects(), object_id.spec_raw()),
                (object_id.spec_raw(), *final(o)),
            ),
            res is None ==> final(self).spec_objects() == old(self).spec_objects(),
            res matches Some(o) ==> (old(self).ids_consistent() && final(o).spec_object_id()
                == o.spec_object_id() ==> final(self).ids_consistent()),
            res is None ==> (old(self).ids_consistent() ==> final(self).ids_consistent()),
            final(self).well_formed(),
            final(self).spec_object_ids() == old(self).spec_object_ids(),
            final(self).spec_bvh() == old(self).spec_bvh(),
            final(self).spec_model_matrices_applied() == old(self).spec_model_matrices_applied(),
            final(self).spec_selected_object() == old(self).spec_selected_object(),
    {
        proof {
            if old(self).ids_consistent() && has_key(old(self).objects@, object_id.0) {
                let x = key_index(old(self).objects@, object_id.0);
                let ids = old(self).object_ids@;
                assert forall|v: O|
                    v.spec_object_id() == old(self).objects@[x].1.spec_object_id() implies ({
                        let t = #[trigger] old(self).objects@.update(x, (object_id.0, v));
                        &&& listed_consistently(t, raw_object_ids(ids))
                        &&& all_carry(t, carries_object_id())
                    }) by {
                    assert(carries_object_id()(old(self).objects@[x]));
                    crate::id_map::lemma_replace_keeps_listed(
                        old(self).objects@,
                        raw_object_ids(ids),
                        carries_object_id(),
                        x,
                        v,
                    );
                }
            }
        }
        let res = self.objects.get_mut(object_id.0);
        res
    }

    /// Applies every object's model matrix unless they are applied
    /// already.
    pub fn apply_model_matrices(&mut self)
        requires
            old(self).well_formed(),
        ensures
            final(self).well_formed(),
            final(self).spec_model_matrices_applied(),
            old(self).ids_consistent() ==> final(self).ids_consistent(),
            old(self).spec_model_matrices_applied() ==> final(self).spec_objects() == old(
                self,
            ).spec_objects(),
            !old(self).spec_model_matrices_applied() ==> final(self).spec_objects()
                == moved_objects(old(self).spec_objects(), true),
            keys_of(final(self).spec_objects()) == keys_of(old(self).spec_objects()),
            final(self).spec_object_ids() == old(self).spec_object_ids(),
            final(self).spec_bvh() == old(self).spec_bvh(),
            final(self).spec_selected_object() == old(self).spec_selected_object(),
    {
        if self.model_matrices_applied {
            return;
        }
        self.for_each_object(true);
        self.model_matrices_applied = true;
    }

    /// Takes every object's model matrix back unless it is not applied.
    pub fn unapply_model_matrices(&mut self)
        requires
            old(self).well_formed(),
        ensures
            final(self).well_formed(),
            !final(self).spec_model_matrices_applied(),
            old(self).ids_consistent() ==> final(self).ids_consistent(),
            !old(self).spec_model_matrices_applied() ==> final(self).spec_objects() == old(
                self,
            ).spec_objects(),
            old(self).spec_model_matrices_applied() ==> final(self).spec_objects()
                == moved_objects(old(self).spec_objects(), false),
            keys_of(final(self).spec_objects()) == keys_of(old(self).spec_objects()),
            final(self).spec_object_ids() == old(self).spec_object_ids(),
            final(self).spec_bvh() == old(self).spec_bvh(),
            final(self).spec_selected_object() == old(self).spec_selected_object(),
    {
        if !self.model_matrices_applied {
            return;
        }
        self.for_each_object(false);
        self.model_matrices_applied = false;
    }

    /// Applies (`apply`) or takes back every object's model matrix.
    fn for_each_object(&mut self, apply: bool)
        requires
            old(self).well_formed(),
        ensures
            final(self).well_formed(),
            final(self).spec_objects() == moved_objects(old(self).spec_objects(), apply),
            old(self).ids_consistent() ==> final(self).ids_consistent(),
            keys_of(final(self).spec_objects()) == keys_of(old(self).spec_objects()),
            final(self).spec_object_ids() == old(self).spec_object_ids(),
            final(self).spec_bvh() == old(self).spec_bvh(),
            final(self).spec_model_matrices_applied() == old(self).spec_model_matrices_applied(),
            final(self).spec_selected_object() == old(self).spec_selected_object(),
    {
        let n = self.objects.len();
        let mut i: usize = 0;
        while i < n
            invariant
                self.well_formed(),
                n == self.objects@.len(),
                i <= n,
                keys_of(self.objects@) == keys_of(old(self).objects@),
                forall|j: int|
                    0 <= j < i ==> #[trigger] self.objects@[j] == (
                        old(self).objects@[j].0,
                        moved_object(old(self).objects@[j].1, apply),
                    ),
                forall|j: int| i <= j < n ==> #[trigger] self.objects@[j] == old(self).objects@[j],
                forall|j: int|
                    0 <= j < n ==> (#[trigger] self.objects@[j]).1.spec_object_id()
                        == old(self).objects@[j].1.spec_object_id(),
                self.object_ids == old(self).object_ids,
                self.bvh == old(self).bvh,
                self.model_matrices_applied == old(self).model_matrices_applied,
                self.selected_object == old(self).selected_object,
            decreases n - i,
        {
            let k = self.objects.key_at(i);
            proof {
                crate::id_map::lemma_key_index_unique(self.objects@, i as int);
            }
            let ghost before = self.objects@;
            match self.objects.get_mut(k) {
                Some(object) => {
                    if apply {
                        object.apply_model_matrix();
                    } else {
                        object.unapply_model_matrix();
                    }
                },
                None => {},
            }
            proof {
                assert(self.objects@ == before.update(i as int, (k, moved_object(before[i as int].1, apply))));
                assert(keys_of(self.objects@) =~= keys_of(before));
            }
            i = i + 1;
        }
        proof {
            assert(self.objects@ =~= moved_objects(old(self).objects@, apply));
            if old(self).ids_consistent() {
                crate::id_map::lemma_listed_same_keys(
                    old(self).objects@,
                    self.objects@,
                    raw_object_ids(self.object_ids@),
                );
                assert forall|j: int| 0 <= j < self.objects@.len() implies #[trigger] carries_object_id()(
                    self.objects@[j],
                ) by {
                    assert(carries_object_id()(old(self).objects@[j]));
                }
            }
        }
    }

    /// The selected object, if any.
    pub fn get_selected_object(&self) -> (res: Option<ObjectID>)
        ensures
            res == self.spec_selected_object(),
    {
        self.selected_object
    }

    /// Selects the object that a ray picked: `hit_object` is the
    /// object that the ray hit first, if it hit one. A ray that hit
    /// nothing leaves the selection as it was.
    pub fn try_select_object(&mut self, hit_object: Option<ObjectID>)
        ensures
            hit_object is Some ==> final(self).spec_selected_object() == hit_object,
            hit_object is None ==> final(self).spec_selected_object()
                == old(self).spec_selected_object(),
            final(self).spec_objects() == old(self).spec_objects(),
            final(self).spec_object_ids() == old(self).spec_object_ids(),
            final(self).spec_bvh() == old(self).spec_bvh(),
            final(self).spec_model_matrices_applied() == old(self).spec_model_matrices_applied(),
    {
        if let Some(object_id) = hit_object {
            self.selected_object = Some(object_id);
        }
    }

    /// The identifiers of the objects in the order of their addition.
    pub fn get_object_ids(&self) -> (res: &[ObjectID])
        ensures
            res@ == self.spec_object_ids(),
    {
        self.object_ids.as_slice()
    }

    /// Whether the objects' model matrices are applied.
    pub fn are_model_matrices_applied(&self) -> (res: bool)
        ensures
            res == self.spec_model_matrices_applied(),
    {
        self.model_matrices_applied
    }

    /// The acceleration structure, if it is built.
    pub fn get_bvh(&self) -> (res: Option<&B>)
        ensures
            res is Some <==> self.spec_bvh() is Some,
            res matches Some(b) ==> Some(*b) == self.spec_bvh(),
    {
        self.bvh.as_ref()
    }

    /// Sets the acceleration structure built over the current objects.
    pub fn set_bvh(&mut self, bvh: B)
        ensures
            final(self).spec_bvh() == Some(bvh),
            final(self).spec_objects() == old(self).spec_objects(),
            final(self).spec_object_ids() == old(self).spec_object_ids(),
            final(self).spec_model_matrices_applied() == old(self).spec_model_matrices_applied(),
            final(self).spec_selected_object() == old(self).spec_selected_object(),
    {
        self.bvh = Some(bvh);
    }
}

/// Deleting the object just added, when the identifier drawn for it was
/// new to the scene, gives back the scene's objects and their order of
/// addition as they were before.
pub proof fn law_delete_undoes_add<O: Object, B>(
    before: Scene<O, B>,
    added: Scene<O, B>,
    after: Scene<O, B>,
    id: ObjectID,
)
    requires
        before.well_formed(),
        !before.spec_object_ids().contains(id),
        !has_key(before.spec_objects(), id.spec_raw()),
        added.spec_object_ids() == before.spec_object_ids().push(id),
        exists|stored: O| added.spec_objects() == before.spec_objects().push((id.spec_raw(), stored)),
        exists|i: int|
            0 <= i < added.spec_object_ids().len() && added.spec_object_ids()[i] == id && (forall|
                j: int,
            | 0 <= j < i ==> added.spec_object_ids()[j] != id) && after.spec_object_ids()
                == added.spec_object_ids().remove(i),
        has_key(added.spec_objects(), id.spec_raw()) ==> after.spec_objects()
            == added.spec_objects().remove(key_index(added.spec_objects(), id.spec_raw())),
    ensures
        after.spec_object_ids() == before.spec_object_ids(),
        after.spec_objects() == before.spec_objects(),
{
    let stored = choose|stored: O| added.spec_objects() == before.spec_objects().push((id.spec_raw(), stored));
    crate::id_map::law_remove_undoes_insert(before.spec_objects(), id.spec_raw(), stored);
    let i = choose|i: int|
        0 <= i < added.spec_object_ids().len() && added.spec_object_ids()[i] == id && (forall|j: int|
            0 <= j < i ==> added.spec_object_ids()[j] != id) && after.spec_object_ids()
            == added.spec_object_ids().remove(i);
    crate::id_map::law_remove_first_undoes_push(before.spec_object_ids(), id, i);
}

} // verus!
