use biliticket::gen_cp::{CTokenField, CTokenGenerator, EncodeData};

fn field() -> CTokenField {
    CTokenField {
        h: 1,
        f: 2,
        y: 3,
        b: 4,
        z: 5,
        q: 6,
        v: 7,
        k: 8,
        g: 0x1234,
        u: 300,
        w: 9,
        j: 10,
        x: 11,
        dollar: 12,
        z_big: 0,
        ee: 0,
    }
}

#[test]
fn token_packs_the_slots() {
    let c = field();
    assert_eq!(c.token_bytes()[..6], [1, 0, 2, 0, 6, 0]);
    assert_eq!(c.encode(), "AQACAAYABAAFAAMABwAIABIANAABACwACQAKAAsADAA=");
}

#[test]
fn token_slots_saturate() {
    let mut c = CTokenField {
        h: 300, f: 0, y: 0, b: 0, z: 0, q: 0, v: -1, k: 0, g: 70000, u: 0, w: 0, j: 0, x: 0, dollar: 0, z_big: 4,
        ee: 9,
    };
    assert_eq!(c.encode(), "/wAAAAAAAAAAAAAA/wAAAP8A/wAAAAAAAAAAAAAAAAA=");
    c.h = 255;
    assert_eq!(c.encode(), "/wAAAAAAAAAAAAAA/wAAAP8A/wAAAAAAAAAAAAAAAAA=");
}

#[test]
fn encode_data_geometry() {
    let e = EncodeData::new("ua".to_string(), "https://show.bilibili.com".to_string());
    assert!([10, 12, 15, 20].contains(&e.device_pixel_ratio_tenths));
    assert_eq!((e.scroll_x, e.scroll_y, e.screen_x, e.screen_y), (0, 0, 0, 0));
    assert!((1500..1700).contains(&e.inner_width));
    for i in 0..20 {
        let v = e.encode(i);
        assert!((0..=255).contains(&v));
    }
    let f = CTokenField::from_encode_data(&e);
    assert_eq!((f.f, f.b, f.v, f.g, f.u), (0, 0, 0, 0, 0));
}

#[test]
fn generated_tokens_are_base64_of_32_bytes() {
    let mut g = CTokenGenerator::new(0, 0, 3000, Some("Mozilla/5.0".to_string()));
    let t = g.generate_ctoken(true);
    assert_eq!(t.len(), 44);
    assert!(t.ends_with('='));
    let p = g.generate_ctoken(false);
    assert_eq!(p.len(), 44);
    g.record_submission(false, 0, 0, 0, 2);
}

#[test]
fn fresh_generator_counts_from_zero() {
    use_decoded(CTokenGenerator::new(0, 0, 3000, None));
    use_decoded(CTokenGenerator::new(0, 0, 3000, Some("Mozilla/5.0 (iPhone)".to_string())));
}

fn use_decoded(mut g: CTokenGenerator) {
    let t = g.generate_ctoken(false);
    let bytes = base64::Engine::decode(&base64::engine::general_purpose::STANDARD, t.as_bytes()).unwrap();
    assert_eq!(bytes.len(), 32);
    assert_eq!((bytes[2], bytes[6], bytes[20], bytes[22]), (0, 0, 0, 0));
    assert!((1..4).contains(&bytes[12]));
    assert_eq!(bytes[16], 0);
    assert!((10..103).contains(&bytes[18]));
}
