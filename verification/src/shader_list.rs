use vstd::prelude::*;

use crate::id_map::{
    all_carry, has_key, key_index, keys_distinct, listed_consistently, lookup, IdMap,
};
use crate::name_gen::{numbered_name, NameGen};
use crate::rng::random_usize;

verus! {

/// A unique identifier given to each shader when it is added to a
/// shader list.
#[derive(Debug, Clone, Copy, PartialEq, Eq, Structural, PartialOrd, Ord, Hash)]
pub struct ShaderID(usize);

impl ShaderID {
    pub closed spec fn spec_raw(&self) -> usize {
        self.0
    }

    /// The raw value of the identifier.
    pub fn get_raw(&self) -> (res: usize)
        ensures
            res == self.spec_raw(),
    {
        self.0
    }
}

/// The kinds of shader the user can add.
#[derive(Debug, Clone, Copy, PartialEq, Eq, Structural)]
pub enum ShaderType {
    Lambert,
    Glossy,
    Emissive,
    Blinnphong,
    Refraction,
}

/// The name of a shader type as the user sees it.
pub open spec fn shader_type_label(t: ShaderType) -> Seq<char> {
    match t {
        ShaderType::Lambert => "Lambert"@,
        ShaderType::Glossy => "Glossy"@,
        ShaderType::Emissive => "Emissive"@,
        ShaderType::Blinnphong => "Blinnphong"@,
        ShaderType::Refraction => "Refraction"@,
    }
}

impl ShaderType {
    /// The name of the shader type as the user sees it.
    pub fn label(&self) -> (res: &'static str)
        ensures
            res@ == shader_type_label(*self),
    {
        match self {
            ShaderType::Lambert => "Lambert",
            ShaderType::Glossy => "Glossy",
            ShaderType::Emissive => "Emissive",
            ShaderType::Blinnphong => "Blinnphong",
            ShaderType::Refraction => "Refraction",
        }
    }

    /// Every shader type, in order.
    pub fn all() -> (res: Vec<Self>)
        ensures
            res@ == seq![
                ShaderType::Lambert,
                ShaderType::Glossy,
                ShaderType::Emissive,
                ShaderType::Blinnphong,
                ShaderType::Refraction,
            ],
    {
        vec![
            ShaderType::Lambert,
            ShaderType::Glossy,
            ShaderType::Emissive,
            ShaderType::Blinnphong,
            ShaderType::Refraction,
        ]
    }

    /// The shader type offered first.
    pub fn default_type() -> (res: Self)
        ensures
            res == ShaderType::Lambert,
    {
        ShaderType::Lambert
    }
}

/// What a shader list needs of its shaders: a shader remembers the
/// identifier it is stored under.
pub trait Shader {
    /// The identifier the shader was last told, if any.
    spec fn spec_shader_id(&self) -> Option<ShaderID>;

    /// Tells the shader the identifier it is stored under.
    fn set_shader_id(&mut self, shader_id: ShaderID)
        ensures
            final(self).spec_shader_id() == Some(shader_id),
    ;

    /// The identifier the shader was told; it must have been told one.
    fn get_shader_id(&self) -> (res: ShaderID)
        requires
            self.spec_shader_id() is Some,
        ensures
            self.spec_shader_id() == Some(res),
    ;
}

/// A shader made of one BSDF of type `B`.
pub struct Lambert<B> {
    bsdf: B,
    shader_id: Option<ShaderID>,
    name: String,
}

impl<B> Lambert<B> {
    pub closed spec fn spec_bsdf(&self) -> B {
        self.bsdf
    }

    /// The shader's name.
    pub closed spec fn spec_name(&self) -> Seq<char> {
        self.name@
    }

    /// A shader of the given BSDF that has not been told an identifier
    /// yet, named by the next name of `names`.
    pub fn new(bsdf: B, names: &mut NameGen) -> (res: Self)
        requires
            old(names).spec_current_gen() < usize::MAX,
        ensures
            res.spec_bsdf() == bsdf,
            res.spec_shader_id() is None,
            final(names).spec_prefix() == old(names).spec_prefix(),
            final(names).spec_current_gen() == old(names).spec_current_gen() + 1,
            res.spec_name() == numbered_name(
                old(names).spec_prefix(),
                final(names).spec_current_gen() as nat,
            ),
    {
        let name = match names.next() {
            Some(name) => name,
            None => vstd::pervasive::unreached(),
        };
        Self { bsdf, shader_id: None, name }
    }

    pub fn get_bsdf(&self) -> (res: &B)
        ensures
            *res == self.spec_bsdf(),
    {
        &self.bsdf
    }

    /// The shader's name.
    pub fn get_shader_name(&self) -> (res: &String)
        ensures
            res@ == self.spec_name(),
    {
        &self.name
    }

    /// Mutable access to the shader's name.
    pub fn get_shader_name_mut(&mut self) -> (res: &mut String)
        ensures
            res@ == old(self).spec_name(),
            final(self).spec_name() == final(res)@,
            final(self).spec_bsdf() == old(self).spec_bsdf(),
            final(self).spec_shader_id() == old(self).spec_shader_id(),
    {
        &mut self.name
    }
}

impl<B> Shader for Lambert<B> {
    closed spec fn spec_shader_id(&self) -> Option<ShaderID> {
        self.shader_id
    }

    fn set_shader_id(&mut self, shader_id: ShaderID)
        ensures
            final(self).spec_bsdf() == old(self).spec_bsdf(),
            final(self).spec_name() == old(self).spec_name(),
    {
        self.shader_id = Some(shader_id);
    }

    fn get_shader_id(&self) -> (res: ShaderID) {
        self.shader_id.unwrap()
    }
}

/// The shader of the entry carries the entry's key as its identifier.
pub open spec fn carries_shader_id<S: Shader>(e: (usize, S)) -> bool {
    &&& e.1.spec_shader_id() is Some
    &&& e.1.spec_shader_id().unwrap().spec_raw() == e.0
}

/// The raw values of identifiers, in order.
pub open spec fn raw_shader_ids(ids: Seq<ShaderID>) -> Seq<usize> {
    ids.map_values(|id: ShaderID| id.spec_raw())
}

proof fn lemma_shader_id_raw(a: ShaderID, b: ShaderID)
    ensures
        a.spec_raw() == b.spec_raw() <==> a == b,
{
}

/// Whether an entry's shader carries the entry's key as its identifier.
pub open spec fn carries_shader_id_fn<S: Shader>() -> spec_fn((usize, S)) -> bool {
    |e: (usize, S)| carries_shader_id(e)
}

/// The shaders by identifier, the order in which they were added, the
/// selected shader and the type of shader to add next.
pub struct ShaderList<S> {
    /// all shaders indexed by their ShaderID
    shaders: IdMap<S>,
    /// all shader ids in the order of addition of shaders
    shader_ids: Vec<ShaderID>,
    /// selected shader if there exists one
    selected_shader: Option<ShaderID>,
    /// current shader type for adding new shader
    shader_type_for_add: ShaderType,
}

impl<S: Shader> ShaderList<S> {
    pub closed spec fn spec_shaders(&self) -> Seq<(usize, S)> {
        self.shaders@
    }

    pub closed spec fn spec_shader_ids(&self) -> Seq<ShaderID> {
        self.shader_ids@
    }

    pub closed spec fn spec_selected_shader(&self) -> Option<ShaderID> {
        self.selected_shader
    }

    pub closed spec fn spec_shader_type_for_add(&self) -> ShaderType {
        self.shader_type_for_add
    }

    /// No two shaders share an identifier.
    pub open spec fn well_formed(&self) -> bool {
        keys_distinct(self.spec_shaders())
    }

    /// The order of addition lists exactly the stored shaders, each
    /// once, and every stored shader carries the identifier it is stored
    /// under. Every operation keeps this, except adding a shader under a
    /// randomly drawn identifier that is already in use.
    pub open spec fn ids_consistent(&self) -> bool {
        &&& listed_consistently(self.spec_shaders(), raw_shader_ids(self.spec_shader_ids()))
        &&& all_carry(self.spec_shaders(), carries_shader_id_fn())
    }

    pub fn new() -> (res: Self)
        ensures
            res.well_formed(),
            res.ids_consistent(),
            res.spec_shaders() == Seq::<(usize, S)>::empty(),
            res.spec_shader_ids() == Seq::<ShaderID>::empty(),
            res.spec_selected_shader() is None,
            res.spec_shader_type_for_add() == ShaderType::Lambert,
    {
        let res = Self {
            shaders: IdMap::new(),
            shader_ids: Vec::new(),
            selected_shader: None,
            shader_type_for_add: ShaderType::default_type(),
        };
        assert(raw_shader_ids(res.shader_ids@) =~= Seq::<usize>::empty());
        res
    }

    /// The shaders, in the order of their entries.
    pub fn get_shaders(&self) -> (res: Vec<&S>)
        ensures
            res@.len() == self.spec_shaders().len(),
            forall|i: int| 0 <= i < res@.len() ==> *#[trigger] res@[i] == self.spec_shaders()[i].1,
    {
        self.shaders.values()
    }

    /// The shader stored under `shader_id`, if any.
    pub fn get_shader(&self, shader_id: ShaderID) -> (res: Option<&S>)
        requires
            self.well_formed(),
        ensures
            res is Some <==> has_key(self.spec_shaders(), shader_id.spec_raw()),
            res matches Some(s) ==> Some(*s) == lookup(self.spec_shaders(), shader_id.spec_raw()),
    {
        self.shaders.get(shader_id.0)
    }

    /// Mutable access to the shader stored under `shader_id`, if any.
    pub fn get_shader_mut(&mut self, shader_id: ShaderID) -> (res: Option<&mut S>)
        requires
            old(self).well_formed(),
        ensures
            res is Some <==> has_key(old(self).spec_shaders(), shader_id.spec_raw()),
            res matches Some(s) ==> Some(*s) == lookup(
                old(self).spec_shaders(),
                shader_id.spec_raw(),
            ) && final(self).spec_shaders() == old(self).spec_shaders().update(
                key_index(old(self).spec_shaders(), shader_id.spec_raw()),
                (shader_id.spec_raw(), *final(s)),
            ),
            res is None ==> final(self).spec_shaders() == old(self).spec_shaders(),
            res matches Some(s) ==> (old(self).ids_consistent() && final(s).spec_shader_id()
                == s.spec_shader_id() ==> final(self).ids_consistent()),
            res is None ==> (old(self).ids_consistent() ==> final(self).ids_consistent()),
            final(self).well_formed(),
            final(self).spec_shader_ids() == old(self).spec_shader_ids(),
            final(self).spec_selected_shader() == old(self).spec_selected_shader(),
            final(self).spec_shader_type_for_add() == old(self).spec_shader_type_for_add(),
    {
        proof {
            if old(self).ids_consistent() && has_key(old(self).shaders@, shader_id.0) {
                let x = key_index(old(self).shaders@, shader_id.0);
                let ids = old(self).shader_ids@;
                assert forall|v: S|
                    v.spec_shader_id() == old(self).shaders@[x].1.spec_shader_id() implies ({
                        let t = #[trigger] old(self).shaders@.update(x, (shader_id.0, v));
                        &&& listed_consistently(t, raw_shader_ids(ids))
                        &&& all_carry(t, carries_shader_id_fn())
                    }) by {
                    assert(carries_shader_id_fn()(old(self).shaders@[x]));
                    crate::id_map::lemma_replace_keeps_listed(
                        old(self).shaders@,
                        raw_shader_ids(ids),
                        carries_shader_id_fn(),
                        x,
                        v,
                    );
                }
            }
        }
        self.shaders.get_mut(shader_id.0)
    }

    /// The identifiers of the shaders in the order of their addition.
    pub fn get_shader_ids(&self) -> (res: &[ShaderID])
        ensures
            res@ == self.spec_shader_ids(),
    {
        self.shader_ids.as_slice()
    }

    /// The selected shader, if any.
    pub fn get_selected_shader(&self) -> (res: &Option<ShaderID>)
        ensures
            *res == self.spec_selected_shader(),
    {
        &self.selected_shader
    }

    /// Selects the given shader.
    pub fn select_shader(&mut self, shader_id: ShaderID)
        ensures
            final(self).spec_selected_shader() == Some(shader_id),
            final(self).spec_shaders() == old(self).spec_shaders(),
            final(self).spec_shader_ids() == old(self).spec_shader_ids(),
            final(self).spec_shader_type_for_add() == old(self).spec_shader_type_for_add(),
    {
        self.selected_shader = Some(shader_id);
    }

    /// Selects no shader.
    pub fn deselect_shader(&mut self)
        ensures
            final(self).spec_selected_shader() is None,
            final(self).spec_shaders() == old(self).spec_shaders(),
            final(self).spec_shader_ids() == old(self).spec_shader_ids(),
            final(self).spec_shader_type_for_add() == old(self).spec_shader_type_for_add(),
    {
        self.selected_shader = None;
    }

    /// The type of shader to add next.
    pub fn get_shader_type_for_add(&self) -> (res: ShaderType)
        ensures
            res == self.spec_shader_type_for_add(),
    {
        self.shader_type_for_add
    }

    /// Sets the type of shader to add next.
    pub fn set_shader_type_for_add(&mut self, shader_type: ShaderType)
        ensures
            final(self).spec_shader_type_for_add() == shader_type,
            final(self).spec_shaders() == old(self).spec_shaders(),
            final(self).spec_shader_ids() == old(self).spec_shader_ids(),
            final(self).spec_selected_shader() == old(self).spec_selected_shader(),
    {
        self.shader_type_for_add = shader_type;
    }

    /// Adds the shader under a new random identifier, tells the shader
    /// its identifier and returns it.
    pub fn add_shader(&mut self, shader: S) -> (res: ShaderID)
        requires
            old(self).well_formed(),
        ensures
            final(self).well_formed(),
            old(self).ids_consistent() && !old(self).spec_shader_ids().contains(res)
                ==> final(self).ids_consistent(),
            final(self).spec_shader_ids() == old(self).spec_shader_ids().push(res),
            has_key(final(self).spec_shaders(), res.spec_raw()),
            lookup(final(self).spec_shaders(), res.spec_raw()) matches Some(stored)
                && stored.spec_shader_id() == Some(res),
            exists|stored: S|
                #![trigger stored.spec_shader_id()]
                stored.spec_shader_id() == Some(res) && if has_key(
                    old(self).spec_shaders(),
                    res.spec_raw(),
                ) {
                    final(self).spec_shaders() == old(self).spec_shaders().update(
                        key_index(old(self).spec_shaders(), res.spec_raw()),
                        (res.spec_raw(), stored),
                    )
                } else {
                    final(self).spec_shaders() == old(self).spec_shaders().push(
                        (res.spec_raw(), stored),
                    )
                },
            forall|k: usize|
                k != res.spec_raw() ==> lookup(final(self).spec_shaders(), k) == lookup(
                    old(self).spec_shaders(),
                    k,
                ),
            final(self).spec_selected_shader() == old(self).spec_selected_shader(),
            final(self).spec_shader_type_for_add() == old(self).spec_shader_type_for_add(),
    {
        let mut shader = shader;
        let shader_id = ShaderID(random_usize());
        shader.set_shader_id(shader_id);
        let ghost before = self.shaders@;
        self.shaders.insert(shader_id.0, shader);
        proof {
            assert forall|k: usize| k != shader_id.0 implies lookup(self.shaders@, k) == lookup(
                before,
                k,
            ) by {
                crate::id_map::law_lookup_after_insert(before, shader_id.0, shader, self.shaders@, k);
            }
            crate::id_map::law_lookup_after_insert(
                before,
                shader_id.0,
                shader,
                self.shaders@,
                if shader_id.0 == 0 { 1 } else { 0 },
            );
        }
        self.shader_ids.push(shader_id);
        proof {
            assert(shader.spec_shader_id() == Some(shader_id));
            assert(raw_shader_ids(self.shader_ids@) =~= raw_shader_ids(old(self).shader_ids@).push(
                shader_id.0,
            ));
            if old(self).ids_consistent() && !old(self).shader_ids@.contains(shader_id) {
                let raw_old = raw_shader_ids(old(self).shader_ids@);
                if raw_old.contains(shader_id.0) {
                    let i = choose|i: int| 0 <= i < raw_old.len() && raw_old[i] == shader_id.0;
                    lemma_shader_id_raw(old(self).shader_ids@[i], shader_id);
                }
                crate::id_map::lemma_listed_after_push(old(self).shaders@, raw_old, shader_id.0, shader);
                assert(self.shaders@ == old(self).shaders@.push((shader_id.0, shader)));
                crate::id_map::lemma_carry_after_push(
                    old(self).shaders@,
                    carries_shader_id_fn(),
                    (shader_id.0, shader),
                );
            }
        }
        shader_id
    }

    /// Removes the shader: its identifier leaves the order of addition
    /// (the first occurrence) and the shader leaves the list. The shader
    /// must be in the list.
    pub fn delete_shader(&mut self, shader_id: ShaderID)
        requires
            old(self).well_formed(),
            old(self).spec_shader_ids().contains(shader_id),
            has_key(old(self).spec_shaders(), shader_id.spec_raw()),
        ensures
            final(self).well_formed(),
            old(self).ids_consistent() ==> final(self).ids_consistent(),
            exists|i: int|
                0 <= i < old(self).spec_shader_ids().len() && old(self).spec_shader_ids()[i]
                    == shader_id && (forall|j: int|
                    0 <= j < i ==> old(self).spec_shader_ids()[j] != shader_id)
                    && final(self).spec_shader_ids() == old(self).spec_shader_ids().remove(i),
            final(self).spec_shaders() == old(self).spec_shaders().remove(
                key_index(old(self).spec_shaders(), shader_id.spec_raw()),
            ),
            final(self).spec_selected_shader() == old(self).spec_selected_shader(),
            final(self).spec_shader_type_for_add() == old(self).spec_shader_type_for_add(),
    {
        let mut i: usize = 0;
        while i < self.shader_ids.len()
            invariant
                i <= self.shader_ids@.len(),
                forall|j: int| 0 <= j < i ==> self.shader_ids@[j] != shader_id,
                self.shader_ids@.contains(shader_id),
            ensures
                i < self.shader_ids@.len(),
                self.shader_ids@[i as int] == shader_id,
                forall|j: int| 0 <= j < i ==> self.shader_ids@[j] != shader_id,
            decreases self.shader_ids@.len() - i,
        {
            if self.shader_ids[i] == shader_id {
                break;
            }
            i = i + 1;
        }
        let ghost raw_old = raw_shader_ids(self.shader_ids@);
        proof {
            if old(self).ids_consistent() {
                crate::id_map::lemma_listed_after_remove(self.shaders@, raw_old, i as int);
            }
        }
        self.shader_ids.remove(i);
        proof {
            assert(raw_shader_ids(self.shader_ids@) =~= raw_old.remove(i as int));
        }
        let removed = self.shaders.remove(shader_id.0);
        proof {
            if old(self).ids_consistent() {
                let x = key_index(old(self).shaders@, shader_id.0);
                crate::id_map::lemma_carry_after_remove(old(self).shaders@, carries_shader_id_fn(), x);
            }
        }
        assert(removed is Some);
    }
}

/// Deleting the shader just added, when the identifier drawn for it was
/// new to the list, gives back the shaders and their order of addition
/// as they were before.
pub proof fn law_delete_undoes_add<S: Shader>(
    before: ShaderList<S>,
    added: ShaderList<S>,
    after: ShaderList<S>,
    id: ShaderID,
)
    requires
        before.well_formed(),
        !before.spec_shader_ids().contains(id),
        !has_key(before.spec_shaders(), id.spec_raw()),
        added.spec_shader_ids() == before.spec_shader_ids().push(id),
        exists|stored: S| added.spec_shaders() == before.spec_shaders().push((id.spec_raw(), stored)),
        exists|i: int|
            0 <= i < added.spec_shader_ids().len() && added.spec_shader_ids()[i] == id && (forall|
                j: int,
            | 0 <= j < i ==> added.spec_shader_ids()[j] != id) && after.spec_shader_ids()
                == added.spec_shader_ids().remove(i),
        after.spec_shaders() == added.spec_shaders().remove(
            key_index(added.spec_shaders(), id.spec_raw()),
        ),
    ensures
        after.spec_shader_ids() == before.spec_shader_ids(),
        after.spec_shaders() == before.spec_shaders(),
{
    let stored = choose|stored: S| added.spec_shaders() == before.spec_shaders().push((id.spec_raw(), stored));
    crate::id_map::law_remove_undoes_insert(before.spec_shaders(), id.spec_raw(), stored);
    let i = choose|i: int|
        0 <= i < added.spec_shader_ids().len() && added.spec_shader_ids()[i] == id && (forall|
            j: int,
        | 0 <= j < i ==> added.spec_shader_ids()[j] != id) && after.spec_shader_ids()
            == added.spec_shader_ids().remove(i);
    crate::id_map::law_remove_first_undoes_push(before.spec_shader_ids(), id, i);
}

} // verus!
