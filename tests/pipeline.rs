use qrcode_api::cache::RequestCache;
use qrcode_api::handler::{QRCodeBodyDefault, QRCodeBodyWithLogo};
use qrcode_api::img::{compose, logo_height, reader_image, ComposeError, LogoSpec};
use qrcode_api::pipeline::{
    begin, finish, fingerprint, fnv1a_hash, produce_plain, produce_with_logo, request_key_bytes,
    status_code, ErrorKind, FetchError, Next, RenderRequest,
};
use qrcode_api::raster::Raster;

fn solid(width: u32, height: u32, rgb: (u8, u8, u8)) -> Raster {
    let mut data = Vec::new();
    for _ in 0..(width * height) {
        data.push(rgb.0);
        data.push(rgb.1);
        data.push(rgb.2);
    }
    Raster { width, height, data }
}

fn logo_bytes() -> Vec<u8> {
    reader_image(solid(2, 2, (200, 10, 10))).unwrap().0
}

fn decode(bytes: &[u8]) -> image::RgbImage {
    image::load_from_memory(bytes).unwrap().into_rgb8()
}

fn logo_spec(width: u32, height: Option<u32>) -> LogoSpec {
    LogoSpec { source_url: "http://logo.test/a.png".to_string(), target_width: width, target_height: height }
}

#[test]
fn encoder_writes_webp() {
    let (bytes, mime) = reader_image(solid(3, 2, (1, 2, 3))).unwrap();
    assert_eq!(mime, "image/webp");
    assert_eq!(&bytes[0..4], b"RIFF");
    assert_eq!(&bytes[8..12], b"WEBP");
    let back = decode(&bytes);
    assert_eq!(back.dimensions(), (3, 2));
    assert_eq!(back.into_raw(), solid(3, 2, (1, 2, 3)).data);
}

#[test]
fn logo_height_keeps_aspect_ratio() {
    assert_eq!(logo_height(100, 50, 30, None), 15);
    assert_eq!(logo_height(3, 1, 2, None), 1);
    assert_eq!(logo_height(4, 1, 2, None), 1);
    assert_eq!(logo_height(4, 1, 1, None), 0);
    assert_eq!(logo_height(10, 30, 7, None), 21);
    assert_eq!(logo_height(100, 50, 30, Some(7)), 7);
    assert_eq!(logo_height(0, 50, 30, None), 0);
}

#[test]
fn compose_centres_resized_logo() {
    let base = solid(10, 10, (255, 255, 255));
    let out = compose(base, &logo_bytes(), &logo_spec(4, None)).unwrap();
    assert_eq!((out.width, out.height), (10, 10));
    let px = |x: usize, y: usize| {
        let i = 3 * (y * 10 + x);
        (out.data[i], out.data[i + 1], out.data[i + 2])
    };
    assert_eq!(px(3, 3), (200, 10, 10));
    assert_eq!(px(6, 6), (200, 10, 10));
    assert_eq!(px(2, 2), (255, 255, 255));
    assert_eq!(px(7, 7), (255, 255, 255));
    assert_eq!(px(3, 7), (255, 255, 255));
}

#[test]
fn compose_with_explicit_height() {
    let base = solid(10, 10, (255, 255, 255));
    let out = compose(base, &logo_bytes(), &logo_spec(2, Some(6))).unwrap();
    let px = |x: usize, y: usize| {
        let i = 3 * (y * 10 + x);
        (out.data[i], out.data[i + 1], out.data[i + 2])
    };
    assert_eq!(px(4, 2), (200, 10, 10));
    assert_eq!(px(5, 7), (200, 10, 10));
    assert_eq!(px(4, 1), (255, 255, 255));
    assert_eq!(px(6, 4), (255, 255, 255));
}

#[test]
fn compose_rejects_non_image_bytes() {
    let base = solid(10, 10, (255, 255, 255));
    let r = compose(base, b"definitely not an image", &logo_spec(4, None));
    assert_eq!(r.err(), Some(ComposeError::DecodeFailure));
}

#[test]
fn compose_rejects_unaddressable_logo_size() {
    let base = solid(10, 10, (255, 255, 255));
    let r = compose(base, &logo_bytes(), &logo_spec(u32::MAX, Some(u32::MAX)));
    assert_eq!(r.err(), Some(ComposeError::TooLarge));
}

#[test]
fn end_to_end_hello_300_with_and_without_logo() {
    let plain = produce_plain("hello".to_string(), 300).unwrap();
    let img = decode(&plain);
    assert_eq!(img.dimensions(), (300, 300));
    let with_logo =
        produce_with_logo("hello".to_string(), 300, &logo_spec(60, None), Ok(logo_bytes())).unwrap();
    let logo_img = decode(&with_logo);
    assert_eq!(logo_img.dimensions(), (300, 300));
    assert_eq!(logo_img.get_pixel(150, 150).0, [200, 10, 10]);
    assert_ne!(img.get_pixel(150, 150).0, [200, 10, 10]);
    let centre = |i: &image::RgbImage| -> Vec<u8> {
        let mut v = Vec::new();
        for y in 120..180 {
            for x in 120..180 {
                v.extend_from_slice(&i.get_pixel(x, y).0);
            }
        }
        v
    };
    assert_ne!(centre(&img), centre(&logo_img));
    assert_eq!(img.get_pixel(0, 0).0, logo_img.get_pixel(0, 0).0);
}

#[test]
fn end_to_end_zero_width_is_client_error() {
    let r = produce_plain("hello".to_string(), 0);
    assert_eq!(r, Err(ErrorKind::InvalidInput));
    let status = status_code(r.unwrap_err());
    assert!((400..500).contains(&status));
    let r = produce_with_logo("hello".to_string(), 0, &logo_spec(4, None), Ok(logo_bytes()));
    assert_eq!(r, Err(ErrorKind::InvalidInput));
}

#[test]
fn oversized_width_is_invalid_input() {
    assert_eq!(produce_plain("hello".to_string(), u32::MAX), Err(ErrorKind::InvalidInput));
}

#[test]
fn failures_are_classified() {
    let spec = logo_spec(4, None);
    assert_eq!(
        produce_with_logo("hi".to_string(), 50, &spec, Err(FetchError::Unreachable)),
        Err(ErrorKind::RemoteUnavailable)
    );
    assert_eq!(
        produce_with_logo("hi".to_string(), 50, &spec, Err(FetchError::NotFound)),
        Err(ErrorKind::RemoteUnavailable)
    );
    assert_eq!(
        produce_with_logo("hi".to_string(), 50, &spec, Ok(b"junk".to_vec())),
        Err(ErrorKind::DecodeFailure)
    );
    assert_eq!(produce_plain("z".repeat(5000), 50), Err(ErrorKind::PayloadTooLarge));
}

#[test]
fn status_codes() {
    assert_eq!(status_code(ErrorKind::InvalidInput), 400);
    assert_eq!(status_code(ErrorKind::PayloadTooLarge), 413);
    assert_eq!(status_code(ErrorKind::RemoteUnavailable), 404);
    assert_eq!(status_code(ErrorKind::DecodeFailure), 422);
    assert_eq!(status_code(ErrorKind::InternalFailure), 500);
}

#[test]
fn fnv1a_known_values() {
    assert_eq!(fnv1a_hash(b""), 0xcbf29ce484222325);
    assert_eq!(fnv1a_hash(b"a"), 0xaf63dc4c8601ec8c);
    assert_eq!(fnv1a_hash(b"foobar"), 0x85944171f73967e8);
}

#[test]
fn request_key_layout() {
    let req = RenderRequest { text: "ab".to_string(), width: 258, logo: None };
    assert_eq!(request_key_bytes(&req), vec![2, 0, 0, 0, 0, 0, 0, 0, b'a', b'b', 2, 1, 0, 0, 0]);
    let req = RenderRequest { text: String::new(), width: 1, logo: Some(logo_spec(3, Some(4))) };
    let key = request_key_bytes(&req);
    assert_eq!(key[..13].to_vec(), vec![0, 0, 0, 0, 0, 0, 0, 0, 1, 0, 0, 0, 1]);
    assert_eq!(key[key.len() - 9..].to_vec(), vec![3, 0, 0, 0, 1, 4, 0, 0, 0]);
}

#[test]
fn fingerprints_tell_fields_apart() {
    let a = RenderRequest { text: "hello".to_string(), width: 300, logo: None };
    let b = RenderRequest { text: "hello".to_string(), width: 301, logo: None };
    let c = RenderRequest { text: "hellp".to_string(), width: 300, logo: None };
    let d = RenderRequest { text: "hello".to_string(), width: 300, logo: Some(logo_spec(60, None)) };
    let e = RenderRequest { text: "hello".to_string(), width: 300, logo: Some(logo_spec(60, Some(60))) };
    let again = RenderRequest { text: "hello".to_string(), width: 300, logo: None };
    let fps = [fingerprint(&a), fingerprint(&b), fingerprint(&c), fingerprint(&d), fingerprint(&e)];
    for i in 0..fps.len() {
        for j in 0..i {
            assert_ne!(fps[i], fps[j]);
        }
    }
    assert_eq!(fingerprint(&a), fingerprint(&again));
}

#[test]
fn bodies_become_requests() {
    let r = QRCodeBodyDefault { data: "x".to_string(), width: 9 }.into_request();
    assert_eq!((r.text.as_str(), r.width, r.logo.is_none()), ("x", 9, true));
    let r = QRCodeBodyWithLogo {
        data: "y".to_string(),
        width: 10,
        logoUrl: "http://l".to_string(),
        logoWidth: 3,
        logoHeight: None,
    }
    .into_request();
    let l = r.logo.unwrap();
    assert_eq!((l.source_url.as_str(), l.target_width, l.target_height), ("http://l", 3, None));
}

fn serve(cache: &mut RequestCache, req: &RenderRequest, now: u64, fetches: &mut u32) -> Result<Vec<u8>, ErrorKind> {
    let built = match begin(cache, req, now) {
        Next::Serve(bytes) => return Ok(bytes),
        Next::Fetch(url) => {
            assert_eq!(url, "http://logo.test/a.png");
            *fetches += 1;
            let logo = req.logo.as_ref().unwrap();
            produce_with_logo(req.text.clone(), req.width, logo, Ok(logo_bytes()))
        }
        Next::Build => produce_plain(req.text.clone(), req.width),
    };
    finish(cache, fingerprint(req), built, now)
}

#[test]
fn repeated_logo_request_is_served_from_cache() {
    let mut cache = RequestCache::standard();
    let req = QRCodeBodyWithLogo {
        data: "hello".to_string(),
        width: 300,
        logoUrl: "http://logo.test/a.png".to_string(),
        logoWidth: 60,
        logoHeight: None,
    }
    .into_request();
    let mut fetches = 0;
    let first = serve(&mut cache, &req, 1000, &mut fetches).unwrap();
    assert_eq!(fetches, 1);
    assert!(matches!(begin(&cache, &req, 1001), Next::Serve(_)));
    let second = serve(&mut cache, &req, 1001, &mut fetches).unwrap();
    assert_eq!(fetches, 1);
    assert_eq!(first, second);
    // After the time to live, the logo is fetched again.
    let third = serve(&mut cache, &req, 1300, &mut fetches).unwrap();
    assert_eq!(fetches, 2);
    assert_eq!(first, third);
}

#[test]
fn failures_are_not_cached() {
    let mut cache = RequestCache::standard();
    let req = RenderRequest { text: "hello".to_string(), width: 0, logo: None };
    let mut fetches = 0;
    assert_eq!(serve(&mut cache, &req, 0, &mut fetches), Err(ErrorKind::InvalidInput));
    assert_eq!(cache.len(), 0);
    assert!(matches!(begin(&cache, &req, 0), Next::Build));
}

#[test]
fn logo_responses_are_classified() {
    assert_eq!(qrcode_api::pipeline::logo_response(200, Some(vec![1, 2])), Ok(vec![1, 2]));
    assert_eq!(qrcode_api::pipeline::logo_response(299, Some(vec![])), Ok(vec![]));
    assert_eq!(qrcode_api::pipeline::logo_response(404, Some(vec![1])), Err(FetchError::NotFound));
    assert_eq!(qrcode_api::pipeline::logo_response(199, None), Err(FetchError::NotFound));
    assert_eq!(qrcode_api::pipeline::logo_response(300, Some(vec![1])), Err(FetchError::NotFound));
    assert_eq!(qrcode_api::pipeline::logo_response(200, None), Err(FetchError::Unreachable));
}
