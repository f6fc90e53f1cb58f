use avow::vec::are_eq;
use dot_vox::material::material::{extract_materials, parse_material, Material};
use dot_vox::material::material_properties::{parse_material_properties, properties_from_mask};
use dot_vox::material::material_type::parse_material_type;
use dot_vox::{MaterialProperties, MaterialType};

const PLASTIC: u32 = 0x01;
const ROUGHNESS: u32 = 0x02;
const SPECULAR: u32 = 0x04;
const IOR: u32 = 0x08;
const ATTENUATION: u32 = 0x10;
const POWER: u32 = 0x20;
const GLOW: u32 = 0x40;
const IS_TOTAL_POWER: u32 = 0x80;

fn single(bits: Option<u32>) -> Option<f32> {
    bits.map(f32::from_bits)
}

fn material_properties_bytes(mask: u32, values: &[f32]) -> Vec<u8> {
    let mut bytes = mask.to_le_bytes().to_vec();
    for value in values {
        bytes.extend_from_slice(&value.to_le_bytes());
    }
    bytes
}

#[test]
fn can_populate_properties_from_mask() {
    let properties = PLASTIC | IOR | IS_TOTAL_POWER;
    let values = vec![0.75f32.to_bits(), 0.31415f32.to_bits()];
    let material_properties = properties_from_mask(properties, values);
    assert_eq!(Some(0.75), single(material_properties.plastic));
    assert_eq!(Some(0.31415), single(material_properties.ior));
    assert_eq!(Some(true), material_properties.is_total_power);
}

#[test]
fn properties_default_to_none_when_no_value_exists() {
    let properties = SPECULAR | ROUGHNESS | ATTENUATION;
    let values = vec![];
    let material_properties = properties_from_mask(properties, values);
    assert_eq!(None, material_properties.specular);
    assert_eq!(None, material_properties.roughness);
    assert_eq!(None, material_properties.attenuation);
}

#[test]
fn can_parse_material_properties() {
    let bytes = material_properties_bytes(
        PLASTIC | ROUGHNESS | SPECULAR | IOR | ATTENUATION,
        &[0.0, 0.189474, 0.5, 0.547368, 0.021053],
    );
    let result = parse_material_properties(&bytes);
    assert!(result.is_ok());
    let (_, material_properties) = result.unwrap();
    assert_eq!(Some(0.0), single(material_properties.plastic));
    assert_eq!(Some(0.189474), single(material_properties.roughness));
    assert_eq!(Some(0.5), single(material_properties.specular));
    assert_eq!(Some(0.547368), single(material_properties.ior));
    assert_eq!(Some(0.021053), single(material_properties.attenuation));
}

#[test]
fn material_properties_stop_before_the_next_material() {
    let mut bytes = material_properties_bytes(ROUGHNESS, &[0.25]);
    bytes.extend_from_slice(b"MATT");
    bytes.extend_from_slice(&[9, 9]);
    let (rest, material_properties) = parse_material_properties(&bytes).unwrap();
    assert_eq!(rest, &b"MATT\x09\x09"[..]);
    assert_eq!(
        material_properties,
        MaterialProperties { roughness: Some(0.25f32.to_bits()), ..Default::default() }
    );
}

#[test]
fn can_parse_diffuse_material_type() {
    let mut bytes = 0u32.to_le_bytes().to_vec();
    bytes.extend_from_slice(&1.0f32.to_le_bytes());
    let result = parse_material_type(&bytes);
    assert!(result.is_ok());
    let (_, material_type) = result.unwrap();
    assert_eq!(MaterialType::Diffuse, material_type);
}

#[test]
fn can_parse_metal_material_type() {
    let mut bytes = 1u32.to_le_bytes().to_vec();
    bytes.extend_from_slice(&1.0f32.to_le_bytes());
    let result = parse_material_type(&bytes);
    assert!(result.is_ok());
    let (_, material_type) = result.unwrap();
    assert_eq!(MaterialType::Metal(1.0f32.to_bits()), material_type);
}

fn material_chunk(id: u32, kind: u32, weight: f32, mask: u32, values: &[f32]) -> Vec<u8> {
    let mut content = id.to_le_bytes().to_vec();
    content.extend_from_slice(&kind.to_le_bytes());
    content.extend_from_slice(&weight.to_le_bytes());
    content.extend(material_properties_bytes(mask, values));
    let mut bytes = b"MATT".to_vec();
    bytes.extend_from_slice(&(content.len() as u32).to_le_bytes());
    bytes.extend_from_slice(&0u32.to_le_bytes());
    bytes.extend(content);
    bytes
}

fn bits(value: f32) -> Option<u32> {
    Some(value.to_bits())
}

#[test]
fn can_parse_material_chunk() {
    let bytes = material_chunk(
        249,
        1,
        1.0,
        PLASTIC | ROUGHNESS | SPECULAR | IOR | POWER | GLOW,
        &[1.0, 0.0, 1.0, 0.3, 4.0, 0.589474],
    );
    let result = parse_material(&bytes);
    assert!(result.is_ok());
    let (_, material) = result.unwrap();
    assert_eq!(249, material.id);
    assert_eq!(MaterialType::Metal(1.0f32.to_bits()), material.material_type);
    assert_eq!(
        MaterialProperties {
            plastic: bits(1.0),
            roughness: bits(0.0),
            specular: bits(1.0),
            ior: bits(0.3),
            power: bits(4.0),
            glow: bits(0.589474),
            ..Default::default()
        },
        material.properties
    );
}

#[test]
fn can_parse_multiple_materials() {
    let common = PLASTIC | ROUGHNESS | SPECULAR | IOR;
    let bytes = [
        material_chunk(79, 1, 1.0, common, &[0.0, 0.1, 0.5, 0.3]),
        material_chunk(85, 1, 0.526316, common, &[0.0, 0.252632, 0.736842, 0.3]),
        material_chunk(249, 2, 0.810526, common | ATTENUATION, &[0.0, 0.189474, 0.5, 0.547368, 0.021053]),
    ]
    .concat();
    let (rest, materials) = extract_materials(&bytes);
    assert!(rest.is_empty());
    are_eq(
        materials,
        vec![
            Material {
                id: 79,
                material_type: MaterialType::Metal(1.0f32.to_bits()),
                properties: MaterialProperties {
                    plastic: bits(0.0),
                    roughness: bits(0.1),
                    specular: bits(0.5),
                    ior: bits(0.3),
                    ..Default::default()
                },
            },
            Material {
                id: 85,
                material_type: MaterialType::Metal(0.526316f32.to_bits()),
                properties: MaterialProperties {
                    plastic: bits(0.0),
                    roughness: bits(0.252632),
                    specular: bits(0.736842),
                    ior: bits(0.3),
                    ..Default::default()
                },
            },
            Material {
                id: 249,
                material_type: MaterialType::Glass(0.810526f32.to_bits()),
                properties: MaterialProperties {
                    plastic: bits(0.0),
                    roughness: bits(0.189474),
                    specular: bits(0.5),
                    ior: bits(0.547368),
                    attenuation: bits(0.021053),
                    ..Default::default()
                },
            },
        ],
    );
}

#[test]
fn materials_end_where_none_can_be_read() {
    let mut bytes = material_chunk(300, 7, 0.5, 0, &[]);
    bytes.extend_from_slice(b"MATT\x01\x02");
    let (rest, materials) = extract_materials(&bytes);
    assert_eq!(rest, &b"MATT\x01\x02"[..]);
    assert_eq!(materials.len(), 1);
    assert_eq!(materials[0].id, 44);
    assert_eq!(materials[0].material_type, MaterialType::Unknown(7, 0.5f32.to_bits()));
    assert_eq!(materials[0].properties, MaterialProperties::default());
    assert!(parse_material(&bytes[..27]).is_err());
}
