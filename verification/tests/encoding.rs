use thermal_core::codepage::{clean_text, text_bytes, text_job_bytes};
use thermal_core::document::{document_bytes, Document};
use thermal_core::payload::{feed_bytes, probe_payload};
use thermal_core::preview::{preview_png_base64, raster_preview, text_preview};
use thermal_core::probe::{payload, raster_test};
use thermal_core::raster::{
    gs_v0, image_payload, normalize_image, raster, scaled_image_payload, Raster, RasterError,
};
use thermal_core::tool::{self, charset_payload, width_payload};

fn square() -> Vec<u8> {
    let mut v = vec![0x1d, b'v', b'0', 0, 2, 0, 16, 0];
    for row in 0..16 {
        if row == 0 || row == 15 {
            v.extend_from_slice(&[0xff, 0xff]);
        } else {
            v.extend_from_slice(&[0x80, 0x01]);
        }
    }
    v
}

#[test]
fn cp860_text() {
    assert_eq!(text_bytes("Olá ação"), vec![b'O', b'l', 0xa0, b' ', b'a', 0x87, 0x84, b'o']);
    assert_eq!(text_bytes("ÇÃÕ€"), vec![0x80, 0x8e, 0x99, b'?']);
    assert_eq!(text_bytes(""), Vec::<u8>::new());
    assert_eq!(text_bytes("ASCII ~\n"), b"ASCII ~\n".to_vec());
}

#[test]
fn text_job() {
    assert_eq!(text_job_bytes(3, "Olá"), vec![0x1b, b'@', 0x1b, b't', 3, b'O', b'l', 0xa0, b'\n']);
    assert_eq!(text_job_bytes(3, "x\n"), vec![0x1b, b'@', 0x1b, b't', 3, b'x', b'\n']);
    assert_eq!(text_job_bytes(10, ""), vec![0x1b, b'@', 0x1b, b't', 10]);
    assert_eq!(clean_text("\u{feff}a\r\nb\r\n"), "a\nb\n");
    assert_eq!(clean_text("a\u{feff}"), "a\u{feff}");
}

#[test]
fn raster_encoding() {
    let img = Raster::from_raw(10, 2, vec![0, 255, 179, 180, 255, 255, 255, 255, 0, 0, 255, 255, 255, 255, 255, 255, 255, 255, 255, 0]).unwrap();
    let out = gs_v0(&img).unwrap();
    assert_eq!(out, vec![0x1d, b'v', b'0', 0, 2, 0, 2, 0, 0xa0, 0xc0, 0x00, 0x40]);
    assert_eq!(raster(&img), out);
    assert!(Raster::from_raw(3, 3, vec![0; 8]).is_none());
    let wide = Raster::from_pixel(524_288, 1, 0);
    assert_eq!(gs_v0(&wide).err(), Some(RasterError::TooLarge));
    let tall = Raster::from_pixel(1, 65_536, 0);
    assert_eq!(gs_v0(&tall).err(), Some(RasterError::TooLarge));
    let tall_out = raster(&tall);
    assert_eq!(&tall_out[..8], &[0x1d, b'v', b'0', 0, 1, 0, 0, 0]);
}

#[test]
fn fixed_payloads() {
    let mut expected = vec![0x1b, b'@'];
    expected.extend_from_slice(b"THZ THERMALKIT\nDirect ESC/POS Driverless OK\n0123456789\n\n");
    expected.extend(square());
    expected.extend_from_slice(b"\n\n");
    assert_eq!(probe_payload(), expected);

    let mut rt = square();
    rt.push(b'\n');
    assert_eq!(raster_test(), rt);

    let mut p = vec![0x1b, b'@'];
    p.extend_from_slice(b"THERMAL PROBE\nASCII OK 0123456789\n\n");
    p.extend(rt.clone());
    p.push(b'\n');
    assert_eq!(payload(), p);

    let mut t = vec![0x1b, b'@'];
    t.extend_from_slice(b"THERMAL PROBE\nASCII OK 0123456789\n\n");
    t.extend(square());
    t.extend_from_slice(b"\n\n");
    assert_eq!(tool::probe_payload(), t);

    let mut c = vec![0x1b, b'@'];
    c.extend_from_slice(b"CP860 (ESC t 3)\n");
    c.extend_from_slice(&[0x1b, b't', 3]);
    c.extend(text_bytes("Português: Olá, ação, órgão, café\n"));
    c.push(b'\n');
    assert_eq!(charset_payload(), c);
    assert_eq!(feed_bytes(None), vec![0x1b, b'd', 4, b'\n']);
    assert_eq!(feed_bytes(Some(9)), vec![0x1b, b'd', 9, b'\n']);
}

#[test]
fn width_ruler() {
    let out = width_payload(16).unwrap();
    let heading = b"WIDTH TEST: 16 dots\nEach small mark = 8 dots\n";
    assert_eq!(&out[..2], &[0x1b, b'@']);
    assert_eq!(&out[2..2 + heading.len()], heading);
    let r = &out[2 + heading.len()..];
    assert_eq!(&r[..8], &[0x1d, b'v', b'0', 0, 2, 0, 72, 0]);
    let rows = &r[8..8 + 144];
    assert_eq!(&rows[0..2], &[0xff, 0xff]);
    assert_eq!(&rows[2..4], &[0x80, 0x81]);
    assert_eq!(&rows[34..36], &[0x80, 0x81]);
    assert_eq!(&rows[36..38], &[0x80, 0x01]);
    assert_eq!(&rows[40..42], &[0x80, 0x01]);
    assert_eq!(&rows[70..72], &[0x80, 0x01]);
    assert_eq!(&rows[72..74], &[0x80, 0x01]);
    assert_eq!(&rows[142..144], &[0xff, 0xff]);
    assert_eq!(&r[152..], b"\n\n");
    assert_eq!(width_payload(600_000).err(), Some(RasterError::TooLarge));
}

#[test]
fn scaling_and_image_pages() {
    let img = Raster::from_pixel(8, 4, 0);
    let same = normalize_image(&img, 8);
    assert_eq!(same.dimensions(), (8, 4));
    assert_eq!(same.as_raw(), img.as_raw());
    let half = normalize_image(&img, 4);
    assert_eq!(half.dimensions(), (4, 2));
    assert_eq!(half.as_raw().len(), 8);
    let grey = Raster::from_raw(2, 1, vec![0, 200]).unwrap();
    let wider = normalize_image(&grey, 4);
    assert_eq!(wider.dimensions(), (4, 2));
    assert_eq!(wider.as_raw().len(), 8);
    assert_ne!(wider.as_raw(), &vec![0, 200]);
    let double = normalize_image(&img, 16);
    assert_eq!(double.dimensions(), (16, 8));
    assert_eq!(image_payload(&img, 0).err(), Some(RasterError::WidthOutOfRange));
    assert_eq!(image_payload(&img, 4097).err(), Some(RasterError::WidthOutOfRange));
    let page = image_payload(&img, 8).unwrap();
    let mut expected = vec![0x1b, b'@', 0x1d, b'v', b'0', 0, 1, 0, 4, 0, 0xff, 0xff, 0xff, 0xff];
    expected.extend_from_slice(b"\n\n");
    assert_eq!(page, expected);
    let small = tool::image_payload(Raster::from_pixel(8, 4, 0), 16).unwrap();
    assert_eq!(small, expected);
    let shrunk = tool::image_payload(Raster::from_pixel(16, 2, 0), 8).unwrap();
    assert_eq!(&shrunk[2..10], &[0x1d, b'v', b'0', 0, 1, 0, 1, 0]);
    assert_eq!(RasterError::WidthOutOfRange.message(), "profile width must be between 1 and 4096 dots");
}

#[test]
fn raster_length_and_bits() {
    for (w, h) in [(1u32, 1u32), (7, 3), (8, 2), (9, 5), (17, 1), (0, 4), (5, 0)] {
        let mut img = Raster::from_pixel(w, h, 255);
        if w > 0 && h > 0 {
            img.put_pixel(w - 1, h - 1, 0);
        }
        let out = gs_v0(&img).unwrap();
        let bpr = ((w + 7) / 8) as usize;
        assert_eq!(out.len(), 8 + bpr * h as usize);
        assert_eq!(&out[..4], &[0x1d, b'v', b'0', 0]);
        for y in 0..h {
            for x in 0..(bpr as u32 * 8) {
                let byte = out[8 + y as usize * bpr + (x / 8) as usize];
                let bit = (byte >> (7 - x % 8)) & 1;
                let dark = x < w && img.get_pixel(x, y) < 180;
                assert_eq!(bit == 1, dark);
            }
        }
    }
}

#[test]
fn document_jobs() {
    assert_eq!(document_bytes(&Document::Empty, 3), None);
    assert_eq!(document_bytes(&Document::Text("a".to_string()), 3), Some(vec![0x1b, b'@', 0x1b, b't', 3, b'a', b'\n']));
    let page = Raster::from_pixel(8, 1, 255);
    let doc = Document::Rasters(vec![page.clone(), page]);
    assert_eq!(
        document_bytes(&doc, 3),
        Some(vec![0x1b, b'@', 0x1d, b'v', b'0', 0, 1, 0, 1, 0, 0, b'\n', b'\n', 0x1d, b'v', b'0', 0, 1, 0, 1, 0, 0, b'\n', b'\n'])
    );
}

#[test]
fn normalizing_twice_keeps_the_first_result() {
    let grey = Raster::from_raw(3, 2, vec![0, 90, 180, 255, 40, 10]).unwrap();
    let once = normalize_image(&grey, 5);
    let twice = normalize_image(&once, 5);
    assert_eq!(twice.dimensions(), once.dimensions());
    assert_eq!(twice.as_raw(), once.as_raw());
    let flat = normalize_image(&Raster::from_pixel(4, 0, 9), 2);
    assert_eq!(flat.dimensions(), (2, 1));
    assert_eq!(flat.as_raw(), &vec![0, 0]);
}

#[test]
fn scaled_page_payload() {
    let page = scaled_image_payload(&Raster::from_pixel(9, 1, 255)).unwrap();
    assert_eq!(page, vec![0x1b, b'@', 0x1d, b'v', b'0', 0, 2, 0, 1, 0, 0, 0, b'\n', b'\n']);
    assert_eq!(scaled_image_payload(&Raster::from_pixel(1, 65536, 0)).err(), Some(RasterError::TooLarge));
}

#[test]
fn previews() {
    let t = text_preview("a.txt".into(), "/d/a.txt".into(), 12, "\u{feff}ol\r\na", None);
    assert_eq!(t.text_content.as_deref(), Some("ol\na"));
    assert_eq!((t.kind.as_str(), t.page_count, t.width_dots, t.file_size), ("text", 1, 384, 12));
    assert!(t.preview_image_base64.is_none());
    let png = preview_png_base64(&Raster::from_pixel(2, 2, 0)).unwrap();
    assert!(png.starts_with("iVBORw0KGgo"));
    assert_eq!(png.len() % 4, 0);
    assert!(preview_png_base64(&Raster::from_pixel(0, 3, 0)).is_err());
    let r = raster_preview("p.png".into(), "/d/p.png".into(), 5, &Raster::from_pixel(8, 4, 0), 3, Some(4)).unwrap();
    assert_eq!((r.kind.as_str(), r.page_count, r.width_dots), ("raster", 3, 4));
    assert!(r.text_content.is_none());
    assert!(r.preview_image_base64.unwrap().starts_with("iVBORw0KGgo"));
    assert!(raster_preview("p".into(), "p".into(), 0, &Raster::from_pixel(8, 4, 0), 1, Some(0)).is_err());
}
