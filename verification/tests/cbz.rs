use std::io::{Cursor, Write};

use comic_ocr::cbz::archive::{
    detect_image_format, image_name, CbzArchive, ImageEntry, ImageFormat, ImageStream,
};
use comic_ocr::cbz::error::CbzError;
use zip::write::SimpleFileOptions;
use zip::ZipWriter;

fn create_test_cbz() -> Vec<u8> {
    let mut buffer = Vec::new();
    let cursor = Cursor::new(&mut buffer);
    let mut writer = ZipWriter::new(cursor);

    let options = SimpleFileOptions::default();

    let png_header: [u8; 8] = [0x89, b'P', b'N', b'G', 0x0D, 0x0A, 0x1A, 0x0A];
    writer.start_file("page1.png", options).unwrap();
    writer.write_all(&png_header).unwrap();

    writer.start_file("page2.jpg", options).unwrap();
    writer.write_all(&[0xFF, 0xD8, 0xFF, 0xE0]).unwrap();

    writer.start_file("readme.txt", options).unwrap();
    writer.write_all(b"This is not an image").unwrap();

    writer.finish().unwrap();
    buffer
}

fn cbz_of(entries: &[(&str, &[u8])]) -> Vec<u8> {
    let mut buffer = Vec::new();
    let mut writer = ZipWriter::new(Cursor::new(&mut buffer));
    for (name, data) in entries {
        writer.start_file(*name, SimpleFileOptions::default()).unwrap();
        writer.write_all(data).unwrap();
    }
    writer.finish().unwrap();
    buffer
}

#[test]
fn test_from_bytes() {
    let data = create_test_cbz();
    let archive = CbzArchive::from_bytes(data).unwrap();
    assert_eq!(archive.len(), 3);
}

#[test]
fn test_image_names() {
    let data = create_test_cbz();
    let archive = CbzArchive::from_bytes(data).unwrap();
    let images = archive.image_names();
    assert_eq!(images.len(), 2);
    assert!(images.contains(&"page1.png".to_string()));
    assert!(images.contains(&"page2.jpg".to_string()));
}

#[test]
fn test_read_image() {
    let data = create_test_cbz();
    let mut archive = CbzArchive::from_bytes(data).unwrap();

    let image = archive.read_image("page1.png").unwrap();
    assert_eq!(image.name, "page1.png");
    assert_eq!(image.format, ImageFormat::Png);
}

#[test]
fn test_iter_images() {
    let data = create_test_cbz();
    let mut archive = CbzArchive::from_bytes(data).unwrap();

    let images: Vec<_> = archive.iter_images().into_iter().collect();
    assert_eq!(images.len(), 2);
}

#[test]
fn test_mime_type() {
    let data = create_test_cbz();
    let mut archive = CbzArchive::from_bytes(data).unwrap();

    let png = archive.read_image("page1.png").unwrap();
    assert_eq!(png.mime_type(), "image/png");

    let jpg = archive.read_image("page2.jpg").unwrap();
    assert_eq!(jpg.mime_type(), "image/jpeg");
}

#[test]
fn from_bytes_rejects_what_is_no_zip() {
    assert_eq!(CbzArchive::from_bytes(vec![1, 2, 3, 4]).err(), Some(CbzError::Zip));
    assert_eq!(CbzArchive::from_bytes(Vec::new()).err(), Some(CbzError::Zip));
}

#[test]
fn empty_archive_has_no_entries() {
    let archive = CbzArchive::from_bytes(cbz_of(&[])).unwrap();
    assert!(archive.is_empty());
    assert_eq!(archive.len(), 0);
    assert!(archive.file_names().is_empty());
    let filled = CbzArchive::from_bytes(create_test_cbz()).unwrap();
    assert!(!filled.is_empty());
}

#[test]
fn file_names_come_in_directory_order() {
    let archive = CbzArchive::from_bytes(create_test_cbz()).unwrap();
    assert_eq!(archive.file_names(), vec!["page1.png", "page2.jpg", "readme.txt"]);
    assert_eq!(archive.image_names(), vec!["page1.png", "page2.jpg"]);
}

#[test]
fn image_names_go_by_extension_in_any_case() {
    for name in ["a.jpg", "a.JPG", "a.jpeg", "a.Png", "a.GIF", "a.webp", "a.bMp", ".png", "dir/x.y.jpeg"] {
        assert!(image_name(name), "{}", name);
    }
    for name in ["a.txt", "png", "a.png.txt", "a.jpg ", "", "a.jp", "a.tiff", "a.g\u{130}f", "ジpg"] {
        assert!(!image_name(name), "{}", name);
    }
}

#[test]
fn image_name_agrees_with_lowercasing() {
    let extensions = [".jpg", ".jpeg", ".png", ".gif", ".webp", ".bmp"];
    let stems = ["", "a", "A.", "\u{212A}", "x\u{130}", "é", ".W", "..", "J", "P", "G"];
    let letters = ['j', 'J', 'p', 'P', 'g', 'G', 'e', 'E', 'n', 'N', 'i', 'I', 'f', 'F', 'w', 'W', 'b', 'B', 'm',
        'M', '.', '\u{212A}', '\u{130}', '\u{131}', 'k', 'K', 'ǆ', 'ß'];
    let mut names: Vec<String> = Vec::new();
    for stem in stems {
        for ext in extensions {
            names.push(format!("{}{}", stem, ext));
            names.push(format!("{}{}", stem, ext.to_uppercase()));
            for (at, _) in ext.char_indices() {
                for letter in letters {
                    let mut changed: Vec<char> = ext.chars().collect();
                    changed[at] = letter;
                    let changed: String = changed.into_iter().collect();
                    names.push(format!("{}{}", stem, changed));
                }
            }
        }
    }
    for name in names {
        let lower = name.to_lowercase();
        let expected = extensions.iter().any(|ext| lower.ends_with(ext));
        assert_eq!(image_name(&name), expected, "{:?}", name);
    }
}

#[test]
fn read_entry_gives_the_bytes() {
    let mut archive = CbzArchive::from_bytes(create_test_cbz()).unwrap();
    assert_eq!(archive.read_entry("readme.txt").unwrap(), b"This is not an image".to_vec());
    assert_eq!(archive.read_entry("page2.jpg").unwrap(), vec![0xFF, 0xD8, 0xFF, 0xE0]);
    assert_eq!(archive.read_entry("readme.txt").unwrap(), b"This is not an image".to_vec());
    assert_eq!(archive.len(), 3);
}

#[test]
fn read_entry_of_absent_name_is_a_zip_error() {
    let mut archive = CbzArchive::from_bytes(create_test_cbz()).unwrap();
    assert_eq!(archive.read_entry("page3.png").err(), Some(CbzError::Zip));
    assert_eq!(archive.read_image("page3.png").err(), Some(CbzError::Zip));
}

#[test]
fn read_image_of_short_entry_is_invalid() {
    let mut archive = CbzArchive::from_bytes(cbz_of(&[("tiny.png", &[0x89, b'P', b'N'])])).unwrap();
    assert_eq!(archive.read_image("tiny.png").err(), Some(CbzError::InvalidImageFormat));
    assert!(archive.iter_images().is_empty());
}

#[test]
fn read_image_tells_the_format_from_the_bytes() {
    let mut archive = CbzArchive::from_bytes(create_test_cbz()).unwrap();
    let text = archive.read_image("readme.txt").unwrap();
    assert_eq!(text.format, ImageFormat::Unknown);
    assert_eq!(text.mime_type(), "application/octet-stream");
    assert_eq!(text.data, b"This is not an image".to_vec());
}

#[test]
fn detect_image_format_knows_each_signature() {
    assert_eq!(detect_image_format(&[0xFF, 0xD8, 0xFF, 0xE0]), Ok(ImageFormat::Jpeg));
    assert_eq!(detect_image_format(&[0x89, b'P', b'N', b'G', 0x0D]), Ok(ImageFormat::Png));
    assert_eq!(detect_image_format(b"GIF89a"), Ok(ImageFormat::Gif));
    assert_eq!(detect_image_format(b"RIFF\x10\x00\x00\x00WEBPVP8 "), Ok(ImageFormat::WebP));
    assert_eq!(detect_image_format(b"BM\x00\x00"), Ok(ImageFormat::Bmp));
    assert_eq!(detect_image_format(b"RIFF\x10\x00\x00\x00WAVEfmt "), Ok(ImageFormat::Unknown));
    assert_eq!(detect_image_format(b"RIFF\x10\x00\x00\x00WEB"), Ok(ImageFormat::Unknown));
    assert_eq!(detect_image_format(b"GIF7"), Ok(ImageFormat::Unknown));
    assert_eq!(detect_image_format(&[0, 0, 0, 0]), Ok(ImageFormat::Unknown));
}

#[test]
fn detect_image_format_rejects_short_data() {
    assert_eq!(detect_image_format(&[]), Err(CbzError::InvalidImageFormat));
    assert_eq!(detect_image_format(&[0xFF, 0xD8, 0xFF]), Err(CbzError::InvalidImageFormat));
}

#[test]
fn formats_name_their_media_types() {
    let expected = [
        (ImageFormat::Jpeg, "image/jpeg"),
        (ImageFormat::Png, "image/png"),
        (ImageFormat::Gif, "image/gif"),
        (ImageFormat::WebP, "image/webp"),
        (ImageFormat::Bmp, "image/bmp"),
        (ImageFormat::Unknown, "application/octet-stream"),
    ];
    for (format, media_type) in expected {
        assert_eq!(format.to_string(), media_type);
        assert_eq!(format.as_str(), media_type);
        let entry = ImageEntry { name: String::new(), data: Vec::new(), format };
        assert_eq!(entry.mime_type(), media_type);
    }
}

#[test]
fn errors_describe_themselves() {
    assert_eq!(CbzError::Io.message(), "IO error");
    assert_eq!(CbzError::Zip.message(), "Zip error");
    assert_eq!(CbzError::InvalidImageFormat.message(), "Invalid image format");
    assert_eq!(CbzError::NotFound.message(), "Entry not found");
}

#[test]
fn stream_goes_through_the_images_in_order() {
    let archive = CbzArchive::from_bytes(create_test_cbz()).unwrap();
    let mut stream = ImageStream::new(archive);
    let first = stream.next().unwrap().unwrap();
    assert_eq!(first.name, "page1.png");
    assert_eq!(first.format, ImageFormat::Png);
    let second = stream.next().unwrap().unwrap();
    assert_eq!(second.name, "page2.jpg");
    assert_eq!(second.format, ImageFormat::Jpeg);
    assert!(stream.next().is_none());
    assert!(stream.next().is_none());
}

#[test]
fn stream_goes_past_an_image_that_cannot_be_told() {
    let archive = CbzArchive::from_bytes(cbz_of(&[("a.png", &[1, 2]), ("b.gif", b"GIF89a")])).unwrap();
    let mut stream = ImageStream::new(archive);
    assert_eq!(stream.next().unwrap().err(), Some(CbzError::InvalidImageFormat));
    assert_eq!(stream.next().unwrap().unwrap().format, ImageFormat::Gif);
    assert!(stream.next().is_none());
}

#[test]
fn damaged_entry_is_an_io_error() {
    let content: Vec<u8> = (0..4000u32).map(|i| (i * 7 % 251) as u8).collect();
    let mut data = cbz_of(&[("page.png", &content)]);
    // Behind the local header of 30 bytes and the name the entry's bytes begin.
    let start = 30 + "page.png".len();
    for offset in 0..64 {
        data[start + 100 + offset] ^= 0xA5;
    }
    let mut archive = CbzArchive::from_bytes(data).unwrap();
    assert_eq!(archive.file_names(), vec!["page.png"]);
    assert_eq!(archive.read_entry("page.png").err(), Some(CbzError::Io));
    assert_eq!(archive.read_image("page.png").err(), Some(CbzError::Io));
    assert!(archive.iter_images().is_empty());
}

#[test]
fn damaged_archives_give_errors_or_bytes() {
    // Whatever byte of a small archive is changed, opening it and reading
    // its entries comes back: with bytes or with an error.
    let good = cbz_of(&[("a.png", &[0x89, b'P', b'N', b'G', 1, 2, 3, 4]), ("b.txt", b"some text, some text")]);
    let mut opened = 0;
    for at in 0..good.len() {
        for mask in [0x01u8, 0x80, 0xFF] {
            let mut data = good.clone();
            data[at] ^= mask;
            if let Ok(mut archive) = CbzArchive::from_bytes(data) {
                opened += 1;
                let names = archive.file_names();
                assert!(names.len() <= archive.len());
                for name in names {
                    let _ = archive.read_entry(&name);
                    let _ = archive.read_image(&name);
                }
                let _ = archive.image_names();
                let _ = archive.iter_images();
            }
        }
    }
    assert!(opened > 0);
    for cut in 0..good.len() {
        if let Ok(mut archive) = CbzArchive::from_bytes(good[..cut].to_vec()) {
            for name in archive.file_names() {
                let _ = archive.read_entry(&name);
            }
        }
    }
}
