use cdn::cache::{CacheStore, TTL_NANOS};
use cdn::error::Error;
use cdn::render::{render_source, settle, settle_at, tint_plan, Located};
use cdn::rsync::lock::{Download, LockStore, Outcome};
use cdn::rsync::parser::SkinMeta;
use cdn::skin::SkinQuery;
use std::io::Cursor;
use tee_morphosis::tee::parts::TeePart;

fn sheet() -> Vec<u8> {
    let mut img = image::RgbaImage::new(256, 128);
    for pixel in img.pixels_mut() {
        pixel.0 = [200, 200, 200, 255];
    }
    let mut bytes = Vec::new();
    img.write_to(&mut Cursor::new(&mut bytes), image::ImageFormat::Png).unwrap();
    bytes
}

fn store_with_ez() -> LockStore {
    let mut store = LockStore::new("s".to_string());
    store.apply_updates(&[Download {
        skin: SkinMeta {
            origin: "https://ddnet.org/skins/skin/ez.png".to_string(),
            name: "ez".to_string(),
            ita: "01-Jan-2024 00:00".to_string(),
        },
        outcome: Outcome::Saved { path: "/srv/.store/ez.png".to_string() },
    }]);
    store
}

fn query(body: Option<u32>, feet: Option<u32>) -> SkinQuery {
    SkinQuery { name: "ez".to_string(), body, feet }
}

#[test]
fn rendered_skin_is_a_png_in_the_standard_layout() {
    let out = render_source(&sheet(), None, None).unwrap();
    let img = image::load_from_memory_with_format(&out, image::ImageFormat::Png).unwrap();
    assert_eq!((img.width(), img.height()), (96, 64));
}

#[test]
fn body_tint_goes_to_body_and_feet_tint_to_feet() {
    assert!(tint_plan(None, None).is_empty());
    assert_eq!(tint_plan(Some(322), None), vec![(322, vec![TeePart::Body, TeePart::BodyShadow])]);
    assert_eq!(tint_plan(None, Some(7)), vec![(7, vec![TeePart::Feet, TeePart::FeetShadow])]);
    assert_eq!(
        tint_plan(Some(322), Some(7)),
        vec![
            (322, vec![TeePart::Body, TeePart::BodyShadow]),
            (7, vec![TeePart::Feet, TeePart::FeetShadow])
        ]
    );
}

#[test]
fn tints_change_the_image() {
    let plain = render_source(&sheet(), None, None).unwrap();
    let body = render_source(&sheet(), Some(322), None).unwrap();
    let feet = render_source(&sheet(), None, Some(322)).unwrap();
    let both = render_source(&sheet(), Some(322), Some(322)).unwrap();
    assert_ne!(plain, body);
    assert_ne!(plain, feet);
    assert_ne!(body, feet);
    assert_ne!(both, body);
    assert_ne!(both, feet);
    assert_eq!(body, render_source(&sheet(), Some(322), None).unwrap());
}

#[test]
fn malformed_source_is_a_rendering_error() {
    assert!(matches!(render_source(b"no image", None, None), Err(Error::Tee(_))));
    let mut small = Vec::new();
    image::RgbaImage::new(8, 8)
        .write_to(&mut Cursor::new(&mut small), image::ImageFormat::Png)
        .unwrap();
    assert!(matches!(render_source(&small, Some(1), None), Err(Error::Tee(_))));
}

#[test]
fn cold_request_renders_and_the_second_is_served_from_the_cache() {
    let store = store_with_ez();
    let mut cache = CacheStore::new();
    let q = query(Some(322), None);
    let first = store.locate_at(&cache, &q, 100);
    assert_eq!(first, Located::Source { path: "/srv/.store/ez.png".to_string() });
    let rendered = render_source(&sheet(), q.body, q.feet);
    let served = settle_at(&mut cache, &q, rendered, 100).unwrap();
    assert_eq!(served, render_source(&sheet(), Some(322), None).unwrap());
    assert_eq!(cache.keys(), vec![q.clone()]);
    assert_eq!(store.locate_at(&cache, &q, 101), Located::Cached(served.clone()));
    assert_eq!(store.locate_at(&cache, &q, 100 + TTL_NANOS), Located::Cached(served));
    assert_eq!(
        store.locate_at(&cache, &q, 101 + TTL_NANOS),
        Located::Source { path: "/srv/.store/ez.png".to_string() }
    );
    assert_eq!(
        store.locate_at(&cache, &query(None, None), 101),
        Located::Source { path: "/srv/.store/ez.png".to_string() }
    );
}

#[test]
fn request_is_located_by_the_cache_s_clock() {
    let store = store_with_ez();
    let mut cache = CacheStore::new();
    let q = query(Some(322), None);
    assert_eq!(store.locate(&cache, &q), Located::Source { path: "/srv/.store/ez.png".to_string() });
    cache.save(&q, &[7]);
    assert_eq!(store.locate(&cache, &q), Located::Cached(vec![7]));
    let other = SkinQuery { name: "nope".to_string(), body: None, feet: None };
    assert_eq!(store.locate(&cache, &other), Located::Unknown);
}

#[test]
fn unknown_skin_is_reported_and_not_cached() {
    let store = store_with_ez();
    let mut cache = CacheStore::new();
    let q = SkinQuery { name: "nope".to_string(), body: None, feet: None };
    assert_eq!(store.locate_at(&cache, &q, 0), Located::Unknown);
    assert_eq!(store.get(&mut cache, &q, Ok(sheet())), Err(Error::QueryNameNotFound));
    assert!(cache.keys().is_empty());
}

#[test]
fn unreadable_copy_is_an_io_error() {
    let store = store_with_ez();
    let mut cache = CacheStore::new();
    let q = query(None, None);
    let r = store.get(&mut cache, &q, Err("No such file or directory".to_string()));
    assert_eq!(r, Err(Error::Io("No such file or directory".to_string())));
    assert!(cache.keys().is_empty());
}

#[test]
fn get_renders_and_fills_the_cache() {
    let store = store_with_ez();
    let mut cache = CacheStore::new();
    let q = query(Some(322), Some(5));
    let image = store.get(&mut cache, &q, Ok(sheet())).unwrap();
    assert_eq!(image, render_source(&sheet(), Some(322), Some(5)).unwrap());
    assert_eq!(cache.get(&q), Some(image));
    let bad = store.get(&mut cache, &query(None, None), Ok(vec![1, 2, 3]));
    assert!(matches!(bad, Err(Error::Tee(_))));
    assert_eq!(cache.keys(), vec![q]);
}

#[test]
fn failed_render_leaves_the_cache_alone() {
    let mut cache = CacheStore::new();
    let q = query(None, None);
    let r = settle_at(&mut cache, &q, Err(Error::Tee("bad".to_string())), 5);
    assert_eq!(r, Err(Error::Tee("bad".to_string())));
    assert!(cache.keys().is_empty());
    let r = settle(&mut cache, &q, Err(Error::Tee("bad".to_string())));
    assert_eq!(r, Err(Error::Tee("bad".to_string())));
    assert!(cache.keys().is_empty());
    assert_eq!(settle(&mut cache, &q, Ok(vec![1, 2])), Ok(vec![1, 2]));
    assert_eq!(cache.get(&q), Some(vec![1, 2]));
}
