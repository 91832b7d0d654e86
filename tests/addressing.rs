use media_converter::media::Format;
use media_converter::storage::{original_dir, original_path, push_decimal, variant_path};

const ID: u128 = 0x67e5_5044_10b1_426f_9247_bb68_0e5f_e0c8;
const ID_TEXT: &str = "67e55044-10b1-426f-9247-bb680e5fe0c8";

#[test]
fn variant_path_layout() {
    let p = variant_path("data", ID, 100, 100, Format::Png);
    assert_eq!(p, format!("data/{ID_TEXT}/100x100/{ID_TEXT}.png"));
    let q = variant_path("./store", ID, 1920, 7, Format::Vp9);
    assert_eq!(q, format!("./store/{ID_TEXT}/1920x7/{ID_TEXT}.vp9"));
}

#[test]
fn variant_path_is_deterministic() {
    let a = variant_path("data", ID, 640, 480, Format::Jpeg);
    let b = variant_path("data", ID, 640, 480, Format::Jpeg);
    assert_eq!(a, b);
    assert_ne!(a, variant_path("data", ID, 480, 640, Format::Jpeg));
    assert_ne!(a, variant_path("data", ID, 640, 480, Format::Avif));
}

#[test]
fn original_paths() {
    assert_eq!(original_dir("data", ID), format!("data/{ID_TEXT}/original"));
    assert_eq!(original_path("data", ID, "cat.png"), format!("data/{ID_TEXT}/original/cat.png"));
}

#[test]
fn decimal_text() {
    for (n, t) in [(0u32, "0"), (9, "9"), (10, "10"), (1920, "1920"), (u32::MAX, "4294967295")] {
        let mut s = String::from("w=");
        push_decimal(&mut s, n);
        assert_eq!(s, format!("w={t}"));
    }
}

#[test]
fn uuid_text_is_lower_case_big_endian() {
    let p = variant_path("r", 0x0123_4567_89ab_cdef_0011_2233_4455_66ff, 1, 2, Format::Mp4);
    let id = "01234567-89ab-cdef-0011-2233445566ff";
    assert_eq!(p, format!("r/{id}/1x2/{id}.mp4"));
    assert_eq!(original_dir("r", 1), "r/00000000-0000-0000-0000-000000000001/original");
}
