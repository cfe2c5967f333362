use rt_rust::id_map::IdMap;
use rt_rust::medium::Mediums;
use rt_rust::name_gen::NameGen;
use rt_rust::scene::{Object, ObjectID, Scene};
use rt_rust::shader_list::{Lambert, Shader, ShaderList, ShaderType};
use rt_rust::spectral_image::TSpectralImage;
use rt_rust::spectrum::{Sample, TSpectrum};
use rt_rust::texture_list::TextureList;
use rt_rust::traversal_info::TraversalInfo;

#[derive(Debug, Clone, PartialEq)]
struct Thing {
    name: &'static str,
    object_id: Option<ObjectID>,
    applied: i32,
}

impl Thing {
    fn new(name: &'static str) -> Self {
        Self {
            name,
            object_id: None,
            applied: 0,
        }
    }
}

impl Object for Thing {
    fn spec_object_id(&self) -> Option<ObjectID> {
        self.object_id
    }

    fn set_object_id(&mut self, object_id: ObjectID) {
        self.object_id = Some(object_id);
    }

    fn get_object_id(&self) -> ObjectID {
        self.object_id.unwrap()
    }

    fn spec_with_model_applied(&self) -> Self {
        Thing {
            applied: self.applied + 1,
            ..self.clone()
        }
    }

    fn spec_with_model_unapplied(&self) -> Self {
        Thing {
            applied: self.applied - 1,
            ..self.clone()
        }
    }

    fn apply_model_matrix(&mut self) {
        self.applied += 1;
    }

    fn unapply_model_matrix(&mut self) {
        self.applied -= 1;
    }
}

#[test]
fn id_map_insert_get_remove() {
    let mut map: IdMap<&str> = IdMap::new();
    assert_eq!(map.insert(7, "a"), None);
    assert_eq!(map.insert(3, "b"), None);
    assert_eq!(map.len(), 2);
    assert_eq!(map.get(7), Some(&"a"));
    assert_eq!(map.get(3), Some(&"b"));
    assert_eq!(map.get(4), None);
    assert!(map.contains_key(3));
    assert!(!map.contains_key(4));
    // storing again under a key replaces the value in place
    assert_eq!(map.insert(7, "c"), Some("a"));
    assert_eq!(map.len(), 2);
    assert_eq!(map.key_at(0), 7);
    assert_eq!(map.values(), vec![&"c", &"b"]);
    if let Some(v) = map.get_mut(3) {
        *v = "d";
    }
    assert_eq!(map.get(3), Some(&"d"));
    assert_eq!(map.remove(7), Some("c"));
    assert_eq!(map.remove(7), None);
    assert_eq!(map.get(7), None);
    assert_eq!(map.len(), 1);
    assert_eq!(map.key_at(0), 3);
}

#[test]
fn scene_add_get_delete() {
    let mut scene: Scene<Thing, u8> = Scene::new();
    assert!(scene.get_objects().is_empty());
    assert!(scene.get_bvh().is_none());
    let a = scene.add_object(Thing::new("a"));
    let b = scene.add_object(Thing::new("b"));
    assert_ne!(a, b);
    assert_eq!(scene.get_object_ids(), &[a, b]);
    // each object is told the identifier it is stored under
    assert_eq!(scene.get_object(a).unwrap().object_id, Some(a));
    assert_eq!(scene.get_object(b).unwrap().get_object_id(), b);
    assert_eq!(scene.get_object(b).unwrap().name, "b");
    assert_eq!(scene.get_objects().len(), 2);

    scene.set_bvh(5);
    assert_eq!(scene.get_bvh(), Some(&5));
    let removed = scene.delete_object(a).unwrap();
    assert_eq!(removed.name, "a");
    assert_eq!(removed.object_id, Some(a));
    // removing an object drops the acceleration structure
    assert!(scene.get_bvh().is_none());
    assert!(scene.get_object(a).is_none());
    assert_eq!(scene.get_object_ids(), &[b]);

    if let Some(object) = scene.get_object_mut(b) {
        object.name = "renamed";
    }
    assert_eq!(scene.get_object(b).unwrap().name, "renamed");
    assert_eq!(ObjectID::from_raw(b.get_raw()), b);
}

#[test]
fn scene_model_matrices_are_applied_once() {
    let mut scene: Scene<Thing, u8> = Scene::new();
    let a = scene.add_object(Thing::new("a"));
    assert!(!scene.are_model_matrices_applied());
    scene.apply_model_matrices();
    scene.apply_model_matrices();
    assert!(scene.are_model_matrices_applied());
    assert_eq!(scene.get_object(a).unwrap().applied, 1);
    scene.unapply_model_matrices();
    scene.unapply_model_matrices();
    assert!(!scene.are_model_matrices_applied());
    assert_eq!(scene.get_object(a).unwrap().applied, 0);
}

#[test]
fn scene_selection_follows_hits() {
    let mut scene: Scene<Thing, u8> = Scene::new();
    let a = scene.add_object(Thing::new("a"));
    assert_eq!(scene.get_selected_object(), None);
    scene.try_select_object(None);
    assert_eq!(scene.get_selected_object(), None);
    scene.try_select_object(Some(a));
    assert_eq!(scene.get_selected_object(), Some(a));
    scene.try_select_object(None);
    assert_eq!(scene.get_selected_object(), Some(a));
}

#[test]
fn shader_list_add_select_delete() {
    let mut list: ShaderList<Lambert<u32>> = ShaderList::new();
    assert_eq!(list.get_shader_type_for_add(), ShaderType::Lambert);
    let mut names = NameGen::for_shaders();
    let a = list.add_shader(Lambert::new(10, &mut names));
    let b = list.add_shader(Lambert::new(20, &mut names));
    // each shader is named by the shared generator
    assert_eq!(list.get_shader(a).unwrap().get_shader_name(), "shader_1");
    assert_eq!(list.get_shader(b).unwrap().get_shader_name(), "shader_2");
    list.get_shader_mut(b).unwrap().get_shader_name_mut().push_str("_glass");
    assert_eq!(list.get_shader(b).unwrap().get_shader_name(), "shader_2_glass");
    assert_eq!(list.get_shader_ids(), &[a, b]);
    assert_eq!(list.get_shader(a).unwrap().get_shader_id(), a);
    assert_eq!(*list.get_shader(b).unwrap().get_bsdf(), 20);
    assert_eq!(list.get_shaders().len(), 2);

    assert_eq!(*list.get_selected_shader(), None);
    list.select_shader(b);
    assert_eq!(*list.get_selected_shader(), Some(b));
    list.deselect_shader();
    assert_eq!(*list.get_selected_shader(), None);

    list.set_shader_type_for_add(ShaderType::Glossy);
    assert_eq!(list.get_shader_type_for_add(), ShaderType::Glossy);

    list.delete_shader(a);
    assert!(list.get_shader(a).is_none());
    assert_eq!(list.get_shader_ids(), &[b]);
    if let Some(shader) = list.get_shader_mut(b) {
        shader.set_shader_id(b);
    }
    assert_eq!(list.get_shader(b).unwrap().get_shader_id(), b);
}

#[test]
fn shader_types_in_order() {
    assert_eq!(
        ShaderType::all(),
        vec![
            ShaderType::Lambert,
            ShaderType::Glossy,
            ShaderType::Emissive,
            ShaderType::Blinnphong,
            ShaderType::Refraction,
        ]
    );
    assert_eq!(ShaderType::default_type(), ShaderType::Lambert);
}

#[test]
fn texture_list_add_get_delete() {
    let mut list: TextureList<String> = TextureList::new();
    let a = list.add_texture("stripes".to_string());
    let b = list.add_texture("noise".to_string());
    assert_eq!(list.get_texture_ids(), &[a, b]);
    assert_eq!(list.get_texture(a).unwrap(), "stripes");
    assert_eq!(list.get_textures().len(), 2);
    if let Some(t) = list.get_texture_mut(b) {
        t.push_str("_2");
    }
    assert_eq!(list.get_texture(b).unwrap(), "noise_2");
    list.delete_texture(a);
    assert!(list.get_texture(a).is_none());
    assert_eq!(list.get_texture_ids(), &[b]);
}

#[test]
fn mediums_form_a_stack() {
    let mut mediums: Mediums<u32> = Mediums::new();
    assert_eq!(mediums.get_number_of_mediums(), 0);
    assert_eq!(mediums.get_lastest_medium(), None);
    assert_eq!(mediums.remove_medium(), None);
    mediums.add_medium(10);
    mediums.add_medium(15);
    assert_eq!(mediums.get_number_of_mediums(), 2);
    // the medium reported is the one entered last
    assert_eq!(mediums.get_lastest_medium(), Some(&15));
    // leaving gives back the medium entered last
    assert_eq!(mediums.remove_medium(), Some(15));
    assert_eq!(mediums.get_lastest_medium(), Some(&10));
    assert_eq!(mediums.remove_medium(), Some(10));
    assert_eq!(mediums.get_number_of_mediums(), 0);
    let default: Mediums<u32> = Mediums::default();
    assert_eq!(default.get_number_of_mediums(), 0);
}

#[test]
fn traversal_append_and_draw_window() {
    let mut first: TraversalInfo<char> = TraversalInfo::new();
    first.add_ray('a');
    first.add_ray('b');
    let mut second: TraversalInfo<char> = TraversalInfo::default();
    second.add_ray('c');
    second.add_ray('d');
    second.add_ray('e');
    first.append_traversal(second);
    assert_eq!(first.get_traversal(), &['a', 'b', 'c', 'd', 'e']);

    // depth 1 is the last ray traced; the window stops at depth `end`
    assert_eq!(first.drawn_rays(1, 3), vec![4, 3, 2]);
    assert_eq!(first.drawn_rays(2, 3), vec![3, 2]);
    assert_eq!(first.drawn_rays(1, 100), vec![4, 3, 2, 1, 0]);
    // an end below the start is never reached
    assert_eq!(first.drawn_rays(3, 1), vec![2, 1, 0]);
    assert_eq!(first.drawn_rays(4, 3), Vec::<usize>::new());
    assert_eq!(first.drawn_rays(9, 12), Vec::<usize>::new());

    // normals stop at the first drawn ray that hit nothing
    let hits = [true, false, true, true, true];
    assert_eq!(first.drawn_normals(1, 100, &hits), vec![4, 3, 2]);
    assert_eq!(first.drawn_normals(2, 3, &hits), vec![3, 2]);
    assert_eq!(first.drawn_normals(4, 100, &hits), Vec::<usize>::new());
}

#[test]
fn spectral_image_new_and_pixels() {
    let image: TSpectralImage<f64> = TSpectralImage::new(3, 2);
    assert_eq!(image.get_width(), 3);
    assert_eq!(image.get_height(), 2);
    assert_eq!(image.get_pixels().len(), 6);
    assert!(image.get_pixels().iter().all(|p| p.is_empty()));

    let mut image = TSpectralImage::from_pixels(
        1,
        1,
        vec![TSpectrum::new(vec![Sample::new(400, 1.0)])],
    );
    {
        let pixels = image.get_pixels_mut();
        assert_eq!(pixels.len(), 1);
        pixels[0] = TSpectrum::new(vec![Sample::new(500, 2.0), Sample::new(510, 3.0)]);
    }
    assert_eq!(image.get_pixels()[0].len(), 2);
    assert_eq!(image.get_width(), 1);
    assert_eq!(image.get_height(), 1);
}

#[test]
fn deleting_what_was_added_restores_the_lists() {
    let mut scene: Scene<Thing, u8> = Scene::new();
    let a = scene.add_object(Thing::new("a"));
    let before_ids = scene.get_object_ids().to_vec();
    let b = scene.add_object(Thing::new("b"));
    assert!(scene.delete_object(b).is_some());
    assert_eq!(scene.get_object_ids(), before_ids.as_slice());
    assert_eq!(scene.get_objects().len(), 1);
    assert_eq!(scene.get_object(a).unwrap().name, "a");

    let mut textures: TextureList<u32> = TextureList::new();
    let t = textures.add_texture(1);
    let before_ids = textures.get_texture_ids().to_vec();
    let u = textures.add_texture(2);
    textures.delete_texture(u);
    assert_eq!(textures.get_texture_ids(), before_ids.as_slice());
    assert_eq!(textures.get_textures(), vec![&1]);
    assert_eq!(textures.get_texture(t), Some(&1));

    let mut shaders: ShaderList<Lambert<u32>> = ShaderList::new();
    let mut names = NameGen::for_shaders();
    let s = shaders.add_shader(Lambert::new(1, &mut names));
    let before_ids = shaders.get_shader_ids().to_vec();
    let r = shaders.add_shader(Lambert::new(2, &mut names));
    shaders.delete_shader(r);
    assert_eq!(shaders.get_shader_ids(), before_ids.as_slice());
    assert_eq!(shaders.get_shaders().len(), 1);
    assert_eq!(*shaders.get_shader(s).unwrap().get_bsdf(), 1);
}
