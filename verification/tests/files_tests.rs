use std::io::{Cursor, Write};

use morpheus_updater::archive::{extraction_plan, extraction_step, ExtractKind, ZipPackage};
use morpheus_updater::icon::{icon_error_message, load_icon};
use morpheus_updater::shortcut::{desktop_entry, shortcut_script};

fn sample_zip() -> Vec<u8> {
    let mut w = zip::ZipWriter::new(Cursor::new(Vec::new()));
    let opts = zip::write::SimpleFileOptions::default();
    w.add_directory("bin/", opts).unwrap();
    w.start_file("bin/morpheus_launcher_gui", opts.unix_permissions(0o755)).unwrap();
    w.write_all(b"#!/bin/sh\n").unwrap();
    w.start_file("../escape.txt", opts).unwrap();
    w.write_all(b"nope").unwrap();
    w.start_file("readme.txt", opts).unwrap();
    w.write_all(b"hello").unwrap();
    w.finish().unwrap().into_inner()
}

#[test]
fn archive_entries_and_plan() {
    let mut pkg = ZipPackage::open(sample_zip()).unwrap();
    assert_eq!(pkg.len(), 4);
    let entries = pkg.entries().unwrap();
    assert_eq!(entries.len(), 4);
    assert_eq!(entries[0].name.as_deref(), Some("bin/"));
    assert_eq!(entries[2].enclosed, None);
    assert_eq!(entries[1].unix_mode.map(|m| m & 0o777), Some(0o755));
    let plan = extraction_plan(&entries);
    let summary: Vec<(usize, String, bool)> = plan
        .iter()
        .map(|s| (s.index, s.path.replace('\\', "/"), s.kind == ExtractKind::Directory))
        .collect();
    assert_eq!(
        summary,
        vec![
            (0, "bin".to_string(), true),
            (1, "bin/morpheus_launcher_gui".to_string(), false),
            (3, "readme.txt".to_string(), false),
        ]
    );
    assert!(matches!(plan[1].kind, ExtractKind::File(Some(m)) if m & 0o777 == 0o755));
    assert_eq!(pkg.contents(3).unwrap(), b"hello".to_vec());
    let second = pkg.entry(1).unwrap();
    assert_eq!(second.name.as_deref(), Some("bin/morpheus_launcher_gui"));
    let step = extraction_step(1, &second).unwrap();
    assert_eq!(step.path.replace('\\', "/"), "bin/morpheus_launcher_gui");
    assert!(extraction_step(2, &pkg.entry(2).unwrap()).is_none());
    assert_eq!(pkg.contents(1).unwrap(), b"#!/bin/sh\n".to_vec());
}

#[test]
fn not_an_archive() {
    let bytes = b"definitely not a zip".to_vec();
    let err = match ZipPackage::open(bytes.clone()) {
        Err(e) => e,
        Ok(_) => panic!("opened"),
    };
    let expected = zip::ZipArchive::new(Cursor::new(bytes)).unwrap_err().to_string();
    assert!(!err.is_empty());
    assert_eq!(err, expected);
}

fn one_pixel_ico() -> Vec<u8> {
    let mut b = Vec::new();
    b.extend_from_slice(&0u16.to_le_bytes());
    b.extend_from_slice(&1u16.to_le_bytes());
    b.extend_from_slice(&1u16.to_le_bytes());
    b.extend_from_slice(&[1, 1, 0, 0]);
    b.extend_from_slice(&1u16.to_le_bytes());
    b.extend_from_slice(&32u16.to_le_bytes());
    b.extend_from_slice(&48u32.to_le_bytes());
    b.extend_from_slice(&22u32.to_le_bytes());
    b.extend_from_slice(&40u32.to_le_bytes());
    b.extend_from_slice(&1i32.to_le_bytes());
    b.extend_from_slice(&2i32.to_le_bytes());
    b.extend_from_slice(&1u16.to_le_bytes());
    b.extend_from_slice(&32u16.to_le_bytes());
    for _ in 0..6 {
        b.extend_from_slice(&0u32.to_le_bytes());
    }
    b.extend_from_slice(&[0, 0, 255, 255]);
    b.extend_from_slice(&[0, 0, 0, 0]);
    b
}

#[test]
fn icon_decodes_to_rgba() {
    let icon = load_icon(&one_pixel_ico()).unwrap();
    assert_eq!((icon.width, icon.height), (1, 1));
    assert_eq!(icon.rgba, vec![255, 0, 0, 255]);
}

#[test]
fn truncated_png_icon_is_refused() {
    let png_signature_only = b"\x89PNG\r\n\x1a\n".to_vec();
    assert!(load_icon(&png_signature_only).is_none());
}

#[test]
fn icon_garbage_is_refused() {
    assert!(load_icon(b"not an image at all").is_none());
    assert!(icon_error_message().starts_with("Impossibile caricare l'icona."));
}

#[test]
fn desktop_integration_texts() {
    assert_eq!(
        desktop_entry("/home/u/.morpheus/morpheus_updater", "/home/u/.morpheus/morpheus.ico"),
        "[Desktop Entry]\nType=Application\nName=Morpheus Launcher\nExec=/home/u/.morpheus/morpheus_updater\nIcon=/home/u/.morpheus/morpheus.ico\nTerminal=false\nCategories=Game;\n"
    );
    assert_eq!(
        shortcut_script("C:\\D\\M.lnk", "C:\\m.exe", "C:\\m.ico"),
        "$s=(New-Object -COM WScript.Shell).CreateShortcut('C:\\D\\M.lnk');$s.TargetPath='C:\\m.exe';$s.IconLocation='C:\\m.ico';$s.Save()"
    );
}

#[test]
fn png_icon_decodes_too() {
    let img = image::RgbaImage::from_raw(1, 1, vec![0, 128, 255, 255]).unwrap();
    let mut png = Vec::new();
    image::DynamicImage::ImageRgba8(img)
        .write_to(&mut Cursor::new(&mut png), image::ImageFormat::Png)
        .unwrap();
    let icon = load_icon(&png).unwrap();
    assert_eq!((icon.width, icon.height), (1, 1));
    assert_eq!(icon.rgba, vec![0, 128, 255, 255]);
}
