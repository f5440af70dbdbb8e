use raytracing::bits::single_bits;
use raytracing::material::{Dielectric, DiffuseLight, Lambertian, Material, MaterialRef, Metal};
use raytracing::primitive::{
    bvh_split, BVHNode, BvhSplit, ConstantMedium, Primitive, PrimitiveList, Quad, RotateY,
    Sphere, Translate,
};
use raytracing::scene::{build_scene_tables, fits_tables};
use raytracing::sizes::SIZE_LIMIT;
use raytracing::structure::{Bits3, Bits4, Interval, RawVec, AABB, SINGLE_MAX_BITS, SINGLE_MIN_BITS};
use raytracing::texture::{CheckerTexture, ImageTexture, SolidColor, Texture, TextureRef};
use raytracing::utils::KeySource;

fn b3(x: f32, y: f32, z: f32) -> Bits3 {
    Bits3 { x: x.to_bits(), y: y.to_bits(), z: z.to_bits() }
}

fn unit_box() -> AABB {
    let i = Interval { min: (-1.0f32).to_bits(), max: 1.0f32.to_bits() };
    AABB { x: i, y: i, z: i }
}

fn sphere(mat: &MaterialRef) -> Primitive {
    Primitive::Sphere(Sphere::sphere(b3(0.0, 1.0, 2.0), 0.5f32.to_bits(), mat.share(), unit_box()))
}

#[test]
fn single_bits_match_the_conversion() {
    for n in [0u32, 1, 2, 3, 7, 255, 1080, 1920, 16_777_215, 16_777_216, 16_777_217, 16_777_219,
        33_554_435, 2_147_483_647, 4_294_967_295]
    {
        assert_eq!(single_bits(n), (n as f32).to_bits(), "n = {}", n);
    }
    assert_eq!(single_bits(1), 0x3f80_0000);
    assert_eq!(single_bits(16_777_217), 0x4b80_0000);
}

#[test]
fn one_sphere_scene() {
    let mut keys = KeySource::new();
    let mat = Lambertian::from_color(b3(0.1, 0.2, 0.5), &mut keys);
    let world = sphere(&mat);
    let t = build_scene_tables(&world, &None);
    assert_eq!(t.root_id, 0);
    assert_eq!(t.light_id, -1);
    assert_eq!(t.scene_uniforms.root_id, 0);
    assert_eq!(t.scene_uniforms.light_id, -1);
    let rv = &t.raw_vec;
    assert_eq!(rv.primitives.len(), 1);
    let r = rv.primitives[0];
    assert_eq!(r.type_id, 1);
    assert_eq!(r.mat_id, 0);
    assert_eq!((r.left_child_id, r.right_child_id, r.next_elem_id), (-1, -1, -1));
    assert_eq!(r.data0.x, 0.0f32.to_bits());
    assert_eq!(r.data0.y, 1.0f32.to_bits());
    assert_eq!(r.data0.w, 0.5f32.to_bits());
    assert_eq!(rv.materials.len(), 1);
    assert_eq!(rv.materials[0].type_id, 0);
    assert_eq!(rv.materials[0].tex_id, 0);
    assert_eq!(rv.textures.len(), 1);
    assert_eq!(rv.textures[0].type_id, 0);
    assert_eq!(rv.textures[0].data0.x, 0.1f32.to_bits());
    assert_eq!(rv.textures[0].data0.w, 0);
    // Nothing wrote texels, so the table gets one zero word.
    assert_eq!(rv.tex_data, vec![0]);
}

#[test]
fn list_links_elements_and_shares_materials() {
    let mut keys = KeySource::new();
    let mat = Metal::new(b3(0.8, 0.6, 0.2), 1.0f32.to_bits(), &mut keys);
    let glass = Dielectric::new(1.5f32.to_bits(), &mut keys);
    let mut list = PrimitiveList::new();
    list.add(sphere(&mat), unit_box());
    list.add(sphere(&glass), unit_box());
    list.add(sphere(&mat), unit_box());
    let world = Primitive::PrimitiveList(list);
    let t = build_scene_tables(&world, &None);
    let p = &t.raw_vec.primitives;
    assert_eq!(p.len(), 4);
    assert_eq!(p[0].type_id, 0);
    assert_eq!(p[0].mat_id, -1);
    assert_eq!(p[0].right_child_id, 1);
    assert_eq!(p[1].next_elem_id, 2);
    assert_eq!(p[2].next_elem_id, 3);
    assert_eq!(p[3].next_elem_id, -1);
    // The metal is written once and both of its spheres point at it.
    assert_eq!(t.raw_vec.materials.len(), 2);
    assert_eq!(p[1].mat_id, 0);
    assert_eq!(p[2].mat_id, 1);
    assert_eq!(p[3].mat_id, 0);
    let m = t.raw_vec.materials[0];
    assert_eq!((m.type_id, m.tex_id), (1, -1));
    assert_eq!(m.data0, Bits4 { x: 0.8f32.to_bits(), y: 0.6f32.to_bits(), z: 0.2f32.to_bits(), w: 1.0f32.to_bits() });
    assert_eq!(t.raw_vec.materials[1].type_id, 2);
    assert_eq!(t.raw_vec.materials[1].data0.x, 1.5f32.to_bits());
}

#[test]
fn empty_list_points_at_record_zero() {
    let world = Primitive::PrimitiveList(PrimitiveList::new());
    let t = build_scene_tables(&world, &None);
    assert_eq!(t.raw_vec.primitives.len(), 1);
    assert_eq!(t.raw_vec.primitives[0].right_child_id, 0);
    let e = AABB::empty();
    assert_eq!((e.x.min, e.x.max), (SINGLE_MAX_BITS, SINGLE_MIN_BITS));
    assert_eq!(SINGLE_MAX_BITS, f32::MAX.to_bits());
    assert_eq!(SINGLE_MIN_BITS, f32::MIN.to_bits());
    assert_eq!(t.raw_vec.primitives[0].aabb.y.min, f32::MAX.to_bits());
}

#[test]
fn bvh_children_follow_their_node() {
    let mut keys = KeySource::new();
    let mat = Lambertian::from_color(b3(0.5, 0.5, 0.5), &mut keys);
    let inner = BVHNode::new(Some(Box::new(sphere(&mat))), Some(Box::new(sphere(&mat))), unit_box());
    let root = BVHNode::new(
        Some(Box::new(Primitive::BVHNode(inner))),
        Some(Box::new(sphere(&mat))),
        unit_box(),
    );
    let only_right = BVHNode::new(None, Some(Box::new(sphere(&mat))), unit_box());
    let mut list = PrimitiveList::new();
    list.add(Primitive::BVHNode(root), unit_box());
    list.add(Primitive::BVHNode(only_right), unit_box());
    let t = build_scene_tables(&Primitive::PrimitiveList(list), &None);
    let p = &t.raw_vec.primitives;
    assert_eq!(p.len(), 8);
    // list 0 -> root 1 (inner 2 -> 3, 4; sphere 5) -> only_right 6 (-1, 7)
    assert_eq!(p[0].right_child_id, 1);
    assert_eq!((p[1].left_child_id, p[1].right_child_id), (2, 5));
    assert_eq!((p[2].left_child_id, p[2].right_child_id), (3, 4));
    assert_eq!(p[1].next_elem_id, 6);
    assert_eq!((p[6].left_child_id, p[6].right_child_id), (-1, 7));
    assert_eq!(p[6].next_elem_id, -1);
    assert_eq!(t.raw_vec.materials.len(), 1);
}

#[test]
fn bvh_split_cases() {
    assert_eq!(bvh_split(1), BvhSplit::Single);
    assert_eq!(bvh_split(2), BvhSplit::Pair);
    assert_eq!(bvh_split(3), BvhSplit::Halves(1));
    assert_eq!(bvh_split(1000), BvhSplit::Halves(500));
}

#[test]
fn transforms_and_media_point_at_their_child() {
    let mut keys = KeySource::new();
    let white = Lambertian::from_color(b3(0.73, 0.73, 0.73), &mut keys);
    let quad = Quad::new(
        b3(0.0, 0.0, 0.0),
        b3(1.0, 0.0, 0.0),
        b3(0.0, 1.0, 0.0),
        b3(0.0, 0.0, 1.0),
        0.0f32.to_bits(),
        b3(0.0, 0.0, 1.0),
        1.0f32.to_bits(),
        white.share(),
        unit_box(),
    );
    let rotated = RotateY::new(Primitive::Quad(quad), 0.5f32.to_bits(), 0.75f32.to_bits(), unit_box());
    let moved = Translate::new(Primitive::RotateY(rotated), b3(265.0, 0.0, 295.0), unit_box());
    let smoke = ConstantMedium::from_color(Primitive::Translate(moved), (-100.0f32).to_bits(), b3(0.0, 0.0, 0.0), &mut keys);
    let t = build_scene_tables(&Primitive::ConstantMedium(smoke), &None);
    let p = &t.raw_vec.primitives;
    assert_eq!(p.len(), 4);
    assert_eq!((p[0].type_id, p[0].right_child_id), (5, 1));
    assert_eq!(p[0].data0.x, (-100.0f32).to_bits());
    assert_eq!((p[1].type_id, p[1].right_child_id), (3, 2));
    assert_eq!(p[1].data0.x, 265.0f32.to_bits());
    assert_eq!((p[2].type_id, p[2].right_child_id), (4, 3));
    assert_eq!((p[2].data0.x, p[2].data0.y), (0.5f32.to_bits(), 0.75f32.to_bits()));
    assert_eq!(p[3].type_id, 2);
    assert_eq!(p[3].data3.z, 1.0f32.to_bits());
    assert_eq!(p[3].data4.w, 1.0f32.to_bits());
    // The phase function is written first (an isotropic material), then the quad's.
    assert_eq!(t.raw_vec.materials[p[0].mat_id as usize].type_id, 4);
    assert_eq!(t.raw_vec.materials[p[3].mat_id as usize].type_id, 0);
    assert_eq!(t.raw_vec.materials.len(), 2);
    assert_eq!(t.raw_vec.textures.len(), 2);
}

#[test]
fn lights_follow_the_world() {
    let mut keys = KeySource::new();
    let light = DiffuseLight::from_color(b3(15.0, 15.0, 15.0), &mut keys);
    let world = sphere(&light);
    let lights = Some(sphere(&light));
    let t = build_scene_tables(&world, &lights);
    assert_eq!(t.root_id, 0);
    assert_eq!(t.light_id, 1);
    assert_eq!(t.raw_vec.primitives.len(), 2);
    assert_eq!(t.raw_vec.materials.len(), 1);
    assert_eq!(t.raw_vec.primitives[1].mat_id, 0);
    assert_eq!(t.raw_vec.materials[0].type_id, 3);
}

#[test]
fn checker_halves_come_first() {
    let mut keys = KeySource::new();
    let checker = CheckerTexture::from_colors((1.0f32 / 0.32).to_bits(), b3(0.2, 0.3, 0.1), b3(0.9, 0.9, 0.9));
    let tex = TextureRef::new(Texture::CheckerTexture(checker), &mut keys);
    let mat = Lambertian::new(tex, &mut keys);
    let t = build_scene_tables(&sphere(&mat), &None);
    let tx = &t.raw_vec.textures;
    assert_eq!(tx.len(), 3);
    assert_eq!(tx[0].data0.x, 0.2f32.to_bits());
    assert_eq!(tx[1].data0.x, 0.9f32.to_bits());
    assert_eq!(tx[2].type_id, 1);
    assert_eq!(tx[2].data0.x, 0.0f32.to_bits());
    assert_eq!(tx[2].data0.y, 1.0f32.to_bits());
    assert_eq!(tx[2].data0.z, (1.0f32 / 0.32).to_bits());
    assert_eq!(t.raw_vec.materials[0].tex_id, 2);
}

#[test]
fn registering_twice_gives_the_same_index() {
    let mut keys = KeySource::new();
    let tex = TextureRef::new(Texture::SolidColor(SolidColor::new(b3(1.0, 0.0, 0.0))), &mut keys);
    let a = Lambertian::new(tex.share(), &mut keys);
    let b = MaterialRef::new(Material::Lambertian(raytracing::material::Lambertian { tex }), &mut keys);
    let mut rv = RawVec::new();
    let ia = rv.register_material(&a);
    let again = rv.register_material(&a);
    assert_eq!(ia, again);
    assert_eq!(rv.materials.len(), 1);
    let ib = rv.register_material(&b);
    assert_eq!(ib, 1);
    // Both materials read the one texture.
    assert_eq!(rv.textures.len(), 1);
    assert_eq!(rv.materials[0].tex_id, rv.materials[1].tex_id);
}

fn png_bytes() -> Vec<u8> {
    let mut img = image::RgbaImage::new(2, 1);
    img.put_pixel(0, 0, image::Rgba([255, 0, 0, 255]));
    img.put_pixel(1, 0, image::Rgba([0, 0, 255, 255]));
    let mut out = std::io::Cursor::new(Vec::new());
    img.write_to(&mut out, image::ImageFormat::Png).unwrap();
    out.into_inner()
}

#[test]
fn image_textures_decode_and_store_texels() {
    assert!(ImageTexture::try_from_bytes(&[1, 2, 3]).is_none());
    let bytes = png_bytes();
    let im = ImageTexture::from_bytes(&bytes);
    assert_eq!((im.width, im.height), (2, 1));
    let expected: Vec<u32> = [1.0f32, 0.0, 0.0, 1.0, 0.0, 0.0, 1.0, 1.0].iter().map(|v| v.to_bits()).collect();
    assert_eq!(im.pixels, expected);
    let same = ImageTexture::try_from_bytes(&bytes).unwrap();
    assert_eq!(same.pixels, im.pixels);

    let mut keys = KeySource::new();
    let tex = TextureRef::new(Texture::ImageTexture(im), &mut keys);
    let mat = Lambertian::new(tex, &mut keys);
    let t = build_scene_tables(&sphere(&mat), &None);
    let r = t.raw_vec.textures[0];
    assert_eq!(r.type_id, 2);
    assert_eq!((r.start, r.end), (0, 2));
    assert_eq!((r.data0.x, r.data0.y), (2.0f32.to_bits(), 1.0f32.to_bits()));
    assert_eq!(t.raw_vec.tex_data, expected);
}

#[test]
fn sizes_count_records_textures_and_texels() {
    let mut keys = KeySource::new();
    let checker = CheckerTexture::from_colors(2.0f32.to_bits(), b3(0.0, 0.0, 0.0), b3(1.0, 1.0, 1.0));
    let tex = TextureRef::new(Texture::CheckerTexture(checker), &mut keys);
    let mat = Lambertian::new(tex, &mut keys);
    let metal = Metal::new(b3(0.5, 0.5, 0.5), 0, &mut keys);
    let mut list = PrimitiveList::new();
    list.add(sphere(&mat), unit_box());
    list.add(sphere(&metal), unit_box());
    let world = Primitive::PrimitiveList(list);
    // The list node and two spheres; the checker and its two halves; no texels.
    assert_eq!(world.sizes(), (3, 3, 0));
    assert!(fits_tables(&world, &None));
    let lights = Some(sphere(&metal));
    assert!(fits_tables(&world, &lights));
    assert_eq!(lights.as_ref().unwrap().sizes(), (1, 0, 0));
    let t = build_scene_tables(&world, &lights);
    assert_eq!(t.raw_vec.primitives.len(), 4);
    assert_eq!(t.raw_vec.textures.len(), 3);
}

#[test]
fn image_sizes_count_pixels_and_area() {
    let im = ImageTexture { width: 3, height: 2, pixels: vec![0; 24] };
    // 24 texel words, more than the 6 pixels, bound the texel offsets.
    assert_eq!(Texture::ImageTexture(im).sizes(), (1, 24));
    let huge = ImageTexture { width: u32::MAX, height: u32::MAX, pixels: vec![] };
    assert_eq!(Texture::ImageTexture(huge).sizes(), (1, SIZE_LIMIT));
}

#[test]
fn oversized_image_does_not_fit() {
    let mut keys = KeySource::new();
    let huge = ImageTexture { width: 0x1_0000, height: 0x1_0000, pixels: vec![] };
    let tex = TextureRef::new(Texture::ImageTexture(huge), &mut keys);
    let mat = Lambertian::new(tex, &mut keys);
    let world = sphere(&mat);
    assert_eq!(world.sizes(), (1, 1, SIZE_LIMIT));
    assert!(!fits_tables(&world, &None));
}

#[test]
fn texture_records_start_at_the_current_texels() {
    let mut keys = KeySource::new();
    let mut rv = RawVec::new();
    let image = ImageTexture { width: 1, height: 1, pixels: vec![7, 8, 9, 10] };
    let img = TextureRef::new(Texture::ImageTexture(image), &mut keys);
    assert_eq!(rv.register_texture(&img), 0);
    let solid = TextureRef::new(Texture::SolidColor(SolidColor::new(b3(0.5, 0.5, 0.5))), &mut keys);
    assert_eq!(rv.register_texture(&solid), 1);
    let checker = CheckerTexture::from_colors(1.0f32.to_bits(), b3(0.0, 0.0, 0.0), b3(1.0, 1.0, 1.0));
    let chk = TextureRef::new(Texture::CheckerTexture(checker), &mut keys);
    assert_eq!(rv.register_texture(&chk), 4);
    assert_eq!((rv.textures[0].start, rv.textures[0].end), (0, 1));
    assert_eq!((rv.textures[1].start, rv.textures[1].end), (4, 4));
    assert_eq!((rv.textures[4].start, rv.textures[4].end), (4, 4));
    assert_eq!(rv.tex_data, vec![7, 8, 9, 10]);
}

#[test]
fn equal_materials_under_new_keys_get_new_records() {
    let mut keys = KeySource::new();
    let a = Dielectric::new(1.5f32.to_bits(), &mut keys);
    let b = Dielectric::new(1.5f32.to_bits(), &mut keys);
    let shared = a.share();
    assert_eq!(shared.key, a.key);
    let mut rv = RawVec::new();
    assert_eq!(rv.register_material(&a), 0);
    assert_eq!(rv.register_material(&shared), 0);
    assert_eq!(rv.register_material(&b), 1);
    assert_eq!(rv.materials.len(), 2);
}

#[test]
fn scene_tables_hold_one_material_record_per_key() {
    let mut keys = KeySource::new();
    let white = Lambertian::from_color(b3(0.73, 0.73, 0.73), &mut keys);
    let light = DiffuseLight::from_color(b3(15.0, 15.0, 15.0), &mut keys);
    let mut list = PrimitiveList::new();
    list.add(sphere(&white), unit_box());
    list.add(sphere(&light), unit_box());
    list.add(sphere(&white), unit_box());
    let lights = Some(sphere(&light));
    let t = build_scene_tables(&Primitive::PrimitiveList(list), &lights);
    assert_eq!(t.raw_vec.materials.len(), 2);
    assert_eq!(t.raw_vec.textures.len(), 2);
    assert_eq!(t.light_id, 4);
    assert_eq!(t.raw_vec.primitives[4].mat_id, t.raw_vec.primitives[2].mat_id);
    assert_eq!(t.scene_uniforms._pad0, [0, 0]);
    assert_eq!(t.raw_vec.tex_data, vec![0]);
}
