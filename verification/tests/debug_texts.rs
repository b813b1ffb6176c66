use lt::mpeg4::boxes::box_types::{BoxType, MOOV};
use lt::mpeg4::boxes::ilst::DataBoxContent;
use lt::mpeg4::boxes::{get_ftyp_box_values, read_box_header};
use lt::mpeg4::util::{BoxCounter, LevelStack};
use lt::track::{MP3Layer, MPEG3Format, MPVersion};
use std::time::Duration;

#[test]
fn data_box_content_text() {
    assert_eq!(DataBoxContent::Byte(10).debug_text(), "Byte(000a)");
    assert_eq!(DataBoxContent::Text(b"Song").debug_text(), "Text(\"Song\")");
    assert_eq!(DataBoxContent::Data(&[0, 3, 255]).debug_text(), "Data([0, 3, ff])");
    let long: Vec<u8> = (0..40).collect();
    assert_eq!(
        DataBoxContent::Data(&long).debug_text(),
        "Data([0, 1, 2, 3, 4, 5, 6, 7] ... [20, 21, 22, 23, 24, 25, 26, 27] len = 40"
    );
}

#[test]
fn counters_boxes_and_formats_text() {
    let c = BoxCounter { size: 100, count: 8, box_type: BoxType::ref_from(MOOV) };
    assert_eq!(c.debug_text(), "\"moov\" - Size: 100, Count: 8");
    let mut l = LevelStack::new();
    let b = [0u8, 0, 0, 8, b'f', b'r', b'e', b'e'];
    let (bx, _) = read_box_header(&b).unwrap();
    assert_eq!(bx.debug_text(), "\"free\"  [8] FREE(free[66726565] Simple Box) Buffer[8]");
    l.update(bx);
    assert!(l.is_empty());
    let f = get_ftyp_box_values(b"M4A \x00\x00\x00\x01M4A mp42");
    assert_eq!(
        f.debug_text(),
        "version: 0, flags: 0x001, brand: \"M4A \", compatible brands: [\"M4A \", \"mp42\"]"
    );
    let m = MPEG3Format {
        bitrate: 128,
        sample_rate: 44100,
        version: MPVersion::MPEG2_5,
        layer: MP3Layer::Layer2,
        duration: Duration::from_secs(1),
    };
    assert_eq!(m.debug_text(), "MPEG-2.5 - Layer 2");
    let u = MPEG3Format { version: MPVersion::Unknown, layer: MP3Layer::Reserved, ..m };
    assert_eq!(u.debug_text(), "Unknwon - Reserved");
}
