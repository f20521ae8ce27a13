use lightningview::format::{classify, is_supported, Family};

#[test]
fn classifies_standard_raster_extensions() {
    let names = [
        "a.jpg", "b.jpeg", "c.png", "d.bmp", "e.svg", "f.ico", "g.pnm", "h.xbm", "i.xpm",
        "j.webp", "k.tif", "l.tiff", "m.tga",
    ];
    for name in names {
        assert_eq!(classify(name), Family::StandardRaster, "{}", name);
    }
}

#[test]
fn classifies_animated() {
    assert_eq!(classify("loop.gif"), Family::Animated);
}

#[test]
fn classifies_sensor_raw_extensions() {
    let names = [
        "a.mrw", "a.arw", "a.srf", "a.sr2", "a.nef", "a.mef", "a.orf", "a.srw", "a.erf",
        "a.kdc", "a.dcs", "a.rw2", "a.raf", "a.dcr", "a.dng", "a.pef", "a.crw", "a.iiq",
        "a.3fr", "a.nrw", "a.mos", "a.cr2", "a.ari", "a.ori",
    ];
    for name in names {
        assert_eq!(classify(name), Family::SensorRaw, "{}", name);
    }
}

#[test]
fn classifies_scientific() {
    assert_eq!(classify("m31.fits"), Family::Scientific);
    assert_eq!(classify("m31.fit"), Family::Scientific);
}

#[test]
fn classifies_next_gen() {
    assert_eq!(classify("photo.jxl"), Family::NextGenCodec);
}

#[test]
fn classification_is_case_insensitive() {
    assert_eq!(classify("SHOT.JPG"), Family::StandardRaster);
    assert_eq!(classify("Shot.Gif"), Family::Animated);
    assert_eq!(classify("IMG_0001.CR2"), Family::SensorRaw);
    assert_eq!(classify("galaxy.FITS"), Family::Scientific);
    assert_eq!(classify("new.JxL"), Family::NextGenCodec);
}

#[test]
fn unknown_extensions_are_unsupported() {
    assert_eq!(classify("notes.txt"), Family::Unsupported);
    assert_eq!(classify("archive.tar.gz"), Family::Unsupported);
    assert_eq!(classify("noextension"), Family::Unsupported);
    assert_eq!(classify("trailingdot."), Family::Unsupported);
    assert_eq!(classify(""), Family::Unsupported);
}

#[test]
fn only_the_last_suffix_counts() {
    assert_eq!(classify("a.png.gif"), Family::Animated);
    assert_eq!(classify("b.gif.png"), Family::StandardRaster);
}

#[test]
fn every_supported_extension_gets_exactly_one_family() {
    let table: [(&str, Family); 43] = [
        ("jpg", Family::StandardRaster),
        ("jpeg", Family::StandardRaster),
        ("png", Family::StandardRaster),
        ("bmp", Family::StandardRaster),
        ("svg", Family::StandardRaster),
        ("ico", Family::StandardRaster),
        ("pnm", Family::StandardRaster),
        ("xbm", Family::StandardRaster),
        ("xpm", Family::StandardRaster),
        ("webp", Family::StandardRaster),
        ("tif", Family::StandardRaster),
        ("tiff", Family::StandardRaster),
        ("tga", Family::StandardRaster),
        ("gif", Family::Animated),
        ("mrw", Family::SensorRaw),
        ("arw", Family::SensorRaw),
        ("srf", Family::SensorRaw),
        ("sr2", Family::SensorRaw),
        ("nef", Family::SensorRaw),
        ("mef", Family::SensorRaw),
        ("orf", Family::SensorRaw),
        ("srw", Family::SensorRaw),
        ("erf", Family::SensorRaw),
        ("kdc", Family::SensorRaw),
        ("dcs", Family::SensorRaw),
        ("rw2", Family::SensorRaw),
        ("raf", Family::SensorRaw),
        ("dcr", Family::SensorRaw),
        ("dng", Family::SensorRaw),
        ("pef", Family::SensorRaw),
        ("crw", Family::SensorRaw),
        ("iiq", Family::SensorRaw),
        ("3fr", Family::SensorRaw),
        ("nrw", Family::SensorRaw),
        ("mos", Family::SensorRaw),
        ("cr2", Family::SensorRaw),
        ("ari", Family::SensorRaw),
        ("ori", Family::SensorRaw),
        ("fits", Family::Scientific),
        ("fit", Family::Scientific),
        ("jxl", Family::NextGenCodec),
        ("gif", Family::Animated),
        ("webp", Family::StandardRaster),
    ];
    for (ext, family) in table {
        let name = format!("file.{}", ext);
        assert_eq!(classify(&name), family, "{}", name);
        assert!(is_supported(&name));
    }
}
