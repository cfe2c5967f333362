use vstd::prelude::*;

verus! {

/// The kinds of sampling a BSDF can do.
#[derive(Debug, Clone, Copy, PartialEq, Eq, Structural)]
pub enum SamplingTypes {
    Diffuse,
    Glossy,
    Reflection,
}

/// What the debug BSDF shows of an intersection.
#[derive(Debug, Clone, Copy, PartialEq, Eq, Structural)]
pub enum InfoType {
    T,
    Point,
    BaryCoords,
    PrimitiveIndex,
    ObjectID,
    ShaderID,
    UV,
    Normal,
    FrontFace,
    Fresnel,
}

/// The name of an info type as the user sees it.
pub open spec fn info_type_label(t: InfoType) -> Seq<char> {
    match t {
        InfoType::T => "Ray Distance"@,
        InfoType::Point => "Point"@,
        InfoType::BaryCoords => "Barycentric Coords"@,
        InfoType::PrimitiveIndex => "Primitive Index"@,
        InfoType::ObjectID => "Object ID"@,
        InfoType::ShaderID => "Shader ID"@,
        InfoType::UV => "UV"@,
        InfoType::Normal => "Normal"@,
        InfoType::FrontFace => "Front Face"@,
        InfoType::Fresnel => "Fresnel"@,
    }
}

impl InfoType {
    /// The name of the info type as the user sees it.
    pub fn label(&self) -> (res: &'static str)
        ensures
            res@ == info_type_label(*self),
    {
        match self {
            InfoType::T => "Ray Distance",
            InfoType::Point => "Point",
            InfoType::BaryCoords => "Barycentric Coords",
            InfoType::PrimitiveIndex => "Primitive Index",
            InfoType::ObjectID => "Object ID",
            InfoType::ShaderID => "Shader ID",
            InfoType::UV => "UV",
            InfoType::Normal => "Normal",
            InfoType::FrontFace => "Front Face",
            InfoType::Fresnel => "Fresnel",
        }
    }

    /// Every info type, in order.
    pub fn all() -> (res: Vec<Self>)
        ensures
            res@ == seq![
                InfoType::T,
                InfoType::Point,
                InfoType::BaryCoords,
                InfoType::PrimitiveIndex,
                InfoType::ObjectID,
                InfoType::ShaderID,
                InfoType::UV,
                InfoType::Normal,
                InfoType::FrontFace,
                InfoType::Fresnel,
            ],
    {
        vec![
            InfoType::T,
            InfoType::Point,
            InfoType::BaryCoords,
            InfoType::PrimitiveIndex,
            InfoType::ObjectID,
            InfoType::ShaderID,
            InfoType::UV,
            InfoType::Normal,
            InfoType::FrontFace,
            InfoType::Fresnel,
        ]
    }
}

/// Materials whose index of refraction depends on the wavelength.
#[derive(Debug, Clone, Copy, PartialEq, Eq, Structural)]
pub enum Material {
    Diamond,
}

impl Material {
    /// The name of the material as the user sees it.
    pub fn label(&self) -> (res: &'static str)
        ensures
            res@ == "Diamond"@,
    {
        match self {
            Material::Diamond => "Diamond",
        }
    }

    /// Every material, in order.
    pub fn all() -> (res: Vec<Self>)
        ensures
            res@ == seq![Material::Diamond],
    {
        vec![Material::Diamond]
    }

    /// Which entries of the material's index of refraction table give
    /// its index of refraction at `wavelength`, which must lie within the
    /// table: the entry at that wavelength, or the two entries around it.
    pub fn ior_lookup(&self, wavelength: usize) -> (res: IorLookup)
        requires
            365 <= wavelength <= 886,
        ensures
            is_table_lookup(DIAMOND_IOR_WAVELENGTHS@, wavelength, res),
    {
        match self {
            Material::Diamond => diamond_lookup(wavelength),
        }
    }
}

/// Dispersive materials a BSDF can be made of.
#[derive(Debug, Clone, Copy, PartialEq, Eq, Structural)]
pub enum DispersiveMaterial {
    Diamond,
}

impl DispersiveMaterial {
    /// The name of the material as the user sees it.
    pub fn label(&self) -> (res: &'static str)
        ensures
            res@ == "Diamond"@,
    {
        match self {
            DispersiveMaterial::Diamond => "Diamond",
        }
    }

    /// Every dispersive material, in order.
    pub fn all() -> (res: Vec<Self>)
        ensures
            res@ == seq![DispersiveMaterial::Diamond],
    {
        vec![DispersiveMaterial::Diamond]
    }

    /// Which entries of the material's index of refraction table give
    /// its index of refraction at `wavelength`, which must lie within the
    /// table: the entry at that wavelength, or the two entries around it.
    pub fn ior_lookup(&self, wavelength: usize) -> (res: IorLookup)
        requires
            365 <= wavelength <= 886,
        ensures
            is_table_lookup(DIAMOND_IOR_WAVELENGTHS@, wavelength, res),
    {
        match self {
            DispersiveMaterial::Diamond => diamond_lookup(wavelength),
        }
    }
}

/// Where an index of refraction comes from in a table of (wavelength,
/// index of refraction) entries: entry `index` itself, or the linear
/// interpolation from entry `lower` towards entry `upper` at the
/// fraction `numerator / denominator`.
#[derive(Debug, Clone, Copy, PartialEq, Eq, Structural)]
pub enum IorLookup {
    Exact { index: usize },
    Between { lower: usize, upper: usize, numerator: usize, denominator: usize },
}

/// The wavelengths (nm) of the entries of diamond's index of refraction
/// table, from refractiveindex.info.
pub const DIAMOND_IOR_WAVELENGTHS: [usize; 11] = [
    365,
    387,
    413,
    443,
    477,
    517,
    564,
    620,
    689,
    775,
    886,
];

/// `res` says where the index of refraction at `wavelength` comes from
/// in a table of entries at the wavelengths `table`: the entry at that
/// very wavelength, or the interpolation between the two neighbouring
/// entries whose wavelengths lie below and above it, at the fraction of
/// the way from the lower to the upper one.
pub open spec fn is_table_lookup(table: Seq<usize>, wavelength: usize, res: IorLookup) -> bool {
    match res {
        IorLookup::Exact { index } => index < table.len() && table[index as int] == wavelength,
        IorLookup::Between { lower, upper, numerator, denominator } => {
            &&& upper == lower + 1
            &&& upper < table.len()
            &&& table[lower as int] < wavelength < table[upper as int]
            &&& numerator == wavelength - table[lower as int]
            &&& denominator == table[upper as int] - table[lower as int]
        },
    }
}

/// Every wavelength is strictly greater than the one before it.
pub open spec fn ascending_table(table: Seq<usize>) -> bool {
    forall|a: int, b: int| 0 <= a < b < table.len() ==> table[a] < table[b]
}

/// Diamond's table is ordered by wavelength.
pub proof fn lemma_diamond_table_ascending()
    ensures
        ascending_table(DIAMOND_IOR_WAVELENGTHS@),
{
    let t = DIAMOND_IOR_WAVELENGTHS@;
    assert(t[0] == 365 && t[1] == 387 && t[2] == 413 && t[3] == 443 && t[4] == 477 && t[5] == 517
        && t[6] == 564 && t[7] == 620 && t[8] == 689 && t[9] == 775 && t[10] == 886);
}

/// In a table ordered by wavelength, a wavelength has one lookup only:
/// the lookup is fixed by the table and the wavelength.
pub proof fn law_table_lookup_unique(table: Seq<usize>, wavelength: usize, a: IorLookup, b: IorLookup)
    requires
        ascending_table(table),
        is_table_lookup(table, wavelength, a),
        is_table_lookup(table, wavelength, b),
    ensures
        a == b,
{
    match (a, b) {
        (IorLookup::Exact { index: i }, IorLookup::Exact { index: j }) => {
            if i < j {
                assert(table[i as int] < table[j as int]);
            } else if j < i {
                assert(table[j as int] < table[i as int]);
            }
        },
        (IorLookup::Exact { index: i }, IorLookup::Between { lower, upper, .. }) => {
            if i <= lower {
                if i < lower {
                    assert(table[i as int] < table[lower as int]);
                }
            } else {
                assert(upper <= i);
                if upper < i {
                    assert(table[upper as int] < table[i as int]);
                }
            }
        },
        (IorLookup::Between { lower, upper, .. }, IorLookup::Exact { index: i }) => {
            if i <= lower {
                if i < lower {
                    assert(table[i as int] < table[lower as int]);
                }
            } else {
                assert(upper <= i);
                if upper < i {
                    assert(table[upper as int] < table[i as int]);
                }
            }
        },
        (
            IorLookup::Between { lower: l1, upper: u1, .. },
            IorLookup::Between { lower: l2, upper: u2, .. },
        ) => {
            if l1 < l2 {
                assert(u1 <= l2);
                if u1 < l2 {
                    assert(table[u1 as int] < table[l2 as int]);
                }
            } else if l2 < l1 {
                assert(u2 <= l1);
                if u2 < l1 {
                    assert(table[u2 as int] < table[l1 as int]);
                }
            }
        },
    }
}

/// Scans diamond's table for the entry, or the two neighbouring
/// entries, that give the index of refraction at `wavelength`.
fn diamond_lookup(wavelength: usize) -> (res: IorLookup)
    requires
        365 <= wavelength <= 886,
    ensures
        is_table_lookup(DIAMOND_IOR_WAVELENGTHS@, wavelength, res),
{
    let table = DIAMOND_IOR_WAVELENGTHS;
    proof {
        lemma_diamond_table_ascending();
    }
    assert(table@[0] == 365 && table@[10] == 886);
    let mut i: usize = 0;
    loop
        invariant
            table@ == DIAMOND_IOR_WAVELENGTHS@,
            ascending_table(table@),
            table@[10] == 886,
            wavelength <= 886,
            i < table@.len(),
            table@[i as int] <= wavelength,
        decreases table@.len() - i,
    {
        let known_wavelength = table[i];
        if wavelength == known_wavelength {
            return IorLookup::Exact { index: i };
        }
        if i == 10 {
            assert(false);
        }
        let higher_wavelength = table[i + 1];
        if wavelength < higher_wavelength {
            return IorLookup::Between {
                lower: i,
                upper: i + 1,
                numerator: wavelength - known_wavelength,
                denominator: higher_wavelength - known_wavelength,
            };
        }
        i = i + 1;
    }
}

} // verus!
