use rt_rust::drawable::Drawable;
use rt_rust::name_gen::NameGen;
use rt_rust::shader_list::ShaderType;
use rt_rust::materials::{DispersiveMaterial, InfoType, IorLookup, Material, DIAMOND_IOR_WAVELENGTHS};
use rt_rust::ray_trace_params::RayTraceParams;
use rt_rust::shader_error::ShaderError;
use rt_rust::viewport::{IVec2, Viewport};

#[test]
fn viewport_corners() {
    let viewport = Viewport::new(IVec2::new(100, 50), IVec2::new(10, 20));
    assert_eq!(viewport.get_width(), 100);
    assert_eq!(viewport.get_height(), 50);
    assert_eq!(viewport.get_dimensions(), IVec2::new(100, 50));
    assert_eq!(viewport.get_at_window_loc_top_left(), IVec2::new(10, 20));
    assert_eq!(viewport.get_at_window_loc_bottom_left(), IVec2::new(10, 70));
    assert_eq!(viewport.get_at_window_loc_top_right(), IVec2::new(110, 20));
    assert_eq!(viewport.get_at_window_loc_bottom_right(), IVec2::new(110, 70));
}

#[test]
fn viewport_location_round_trip() {
    let a = Viewport::new(IVec2::new(100, 50), IVec2::new(10, 20));
    let b = Viewport::new(IVec2::new(30, 30), IVec2::new(-5, 40));
    let p = IVec2::new(3, 4);
    let q = b.calculate_location((&p, &a));
    assert_eq!(q, IVec2::new(18, -16));
    assert_eq!(a.calculate_location((&q, &b)), p);
    assert_eq!(a.calculate_location((&p, &a)), p);
}

#[test]
fn diamond_ior_lookup() {
    assert_eq!(DIAMOND_IOR_WAVELENGTHS[0], 365);
    assert_eq!(DIAMOND_IOR_WAVELENGTHS[10], 886);
    assert_eq!(Material::Diamond.ior_lookup(365), IorLookup::Exact { index: 0 });
    // a tabulated wavelength uses its own entry
    assert_eq!(Material::Diamond.ior_lookup(564), IorLookup::Exact { index: 6 });
    assert_eq!(DispersiveMaterial::Diamond.ior_lookup(886), IorLookup::Exact { index: 10 });
    // other wavelengths are interpolated between the entries around them
    assert_eq!(
        Material::Diamond.ior_lookup(376),
        IorLookup::Between {
            lower: 0,
            upper: 1,
            numerator: 11,
            denominator: 22
        }
    );
    assert_eq!(
        DispersiveMaterial::Diamond.ior_lookup(550),
        IorLookup::Between {
            lower: 5,
            upper: 6,
            numerator: 33,
            denominator: 47
        }
    );
    assert_eq!(
        DispersiveMaterial::Diamond.ior_lookup(885),
        IorLookup::Between {
            lower: 9,
            upper: 10,
            numerator: 110,
            denominator: 111
        }
    );
}

#[test]
fn material_lists() {
    assert_eq!(Material::all(), vec![Material::Diamond]);
    assert_eq!(DispersiveMaterial::all(), vec![DispersiveMaterial::Diamond]);
    let info = InfoType::all();
    assert_eq!(info.len(), 10);
    assert_eq!(info[0], InfoType::T);
    assert_eq!(info[9], InfoType::Fresnel);
}

#[test]
fn ray_trace_params_getters() {
    let params = RayTraceParams::new(640, 480, 8, 16);
    assert_eq!(params.get_width(), 640);
    assert_eq!(params.get_height(), 480);
    assert_eq!(params.get_trace_max_depth(), 8);
    assert_eq!(params.get_samples_per_pixel(), 16);
}

struct Counter {
    draws: usize,
}

impl Drawable for Counter {
    type ExtraData = usize;
    type Error = ShaderError;

    fn draw(&self, extra_data: &mut usize) -> Result<(), ShaderError> {
        *extra_data += self.draws;
        if self.draws > 3 {
            Err(ShaderError::VertexCompile("too many".to_string()))
        } else {
            Ok(())
        }
    }
}

#[test]
fn drawable_default_wireframe_succeeds() {
    let counter = Counter { draws: 2 };
    let mut total = 0;
    assert!(counter.draw(&mut total).is_ok());
    assert_eq!(total, 2);
    assert!(counter.draw_wireframe(&mut total).is_ok());
    assert_eq!(total, 2);
    let counter = Counter { draws: 4 };
    assert!(matches!(
        counter.draw(&mut total),
        Err(ShaderError::VertexCompile(_))
    ));
}

#[test]
fn name_gen_numbers_names() {
    let mut names = NameGen::new("shader".to_string());
    assert_eq!(names.next(), Some("shader_1".to_string()));
    assert_eq!(names.next(), Some("shader_2".to_string()));
    for _ in 0..7 {
        names.next();
    }
    assert_eq!(names.next(), Some("shader_10".to_string()));
}

#[test]
fn labels_as_the_user_sees_them() {
    assert_eq!(InfoType::T.label(), "Ray Distance");
    assert_eq!(InfoType::BaryCoords.label(), "Barycentric Coords");
    assert_eq!(InfoType::Fresnel.label(), "Fresnel");
    assert_eq!(Material::Diamond.label(), "Diamond");
    assert_eq!(DispersiveMaterial::Diamond.label(), "Diamond");
    assert_eq!(ShaderType::Blinnphong.label(), "Blinnphong");
    assert_eq!(ShaderType::Lambert.label(), "Lambert");
}
