use dxgcap::com::UniqueCOMPtr;
use dxgcap::frame::{readable_desc, DuplicatedOutput};
use dxgcap::com::{ComCall, ID3D11Texture2D, IDXGIResource, TextureDesc};
use dxgcap::hresult::{
    hr_result, DXGI_ERROR_ACCESS_LOST, DXGI_ERROR_NOT_FOUND, DXGI_ERROR_WAIT_TIMEOUT,
    E_ACCESSDENIED,
};
use dxgcap::pixel::{is_measurable, output_size, pitch_pixels, Layout, Rect, Rotation};
use dxgcap::source::{get_capture_source, output_is_primary};
use dxgcap::text::c_utf16_to_string;
use dxgcap::time::{max, timeout_ms};
use dxgcap::{hr_failed, Duration, BGRA8, DXGI_PIXEL_SIZE};

#[test]
fn negative_codes_fail() {
    assert!(hr_failed(-1));
    assert!(hr_failed(i32::MIN));
    assert!(!hr_failed(0));
    assert!(!hr_failed(1));
    assert_eq!(hr_result(-7), Err(-7));
    assert_eq!(hr_result(0), Ok(()));
    assert_eq!(hr_result(1), Ok(()));
}

#[test]
fn codes_have_their_documented_values() {
    assert_eq!(DXGI_ERROR_NOT_FOUND, 0x887A0002u32 as i32);
    assert_eq!(DXGI_ERROR_ACCESS_LOST, 0x887A0026u32 as i32);
    assert_eq!(DXGI_ERROR_WAIT_TIMEOUT, 0x887A0027u32 as i32);
    assert_eq!(E_ACCESSDENIED, 0x80070005u32 as i32);
}

#[test]
fn greater_of_two() {
    assert_eq!(max(3, 5), 5);
    assert_eq!(max(5, 3), 5);
    assert_eq!(max(-1i64, 0), 0);
    assert_eq!(max("b", "a"), "b");
    assert!(max(f64::NAN, 1.0) == 1.0);
}

#[test]
fn timeouts_are_clamped_and_cut_to_32_bits() {
    assert_eq!(timeout_ms(Duration::milliseconds(200)), 200);
    assert_eq!(timeout_ms(Duration::milliseconds(0)), 0);
    assert_eq!(timeout_ms(Duration::milliseconds(-5)), 0);
    assert_eq!(timeout_ms(Duration::milliseconds(i64::MIN)), 0);
    assert_eq!(timeout_ms(Duration::milliseconds(0xFFFF_FFFF)), 0xFFFF_FFFF);
    assert_eq!(timeout_ms(Duration::milliseconds(0x1_0000_0007)), 7);
    assert_eq!(Duration::milliseconds(-3).num_milliseconds(), -3);
}

#[test]
fn text_ends_at_the_first_nul() {
    assert_eq!(c_utf16_to_string(&[0x41, 0x42, 0, 0x43]), "AB");
    assert_eq!(c_utf16_to_string(&[0x41, 0x42]), "AB");
    assert_eq!(c_utf16_to_string(&[0, 0x41]), "");
    assert_eq!(c_utf16_to_string(&[]), "");
}

#[test]
fn text_is_decoded_with_replacement() {
    let units = [0xD834, 0xDD1E, 0x6D, 0x75, 0x73, 0xDD1E, 0x69, 0x63, 0xD834];
    assert_eq!(c_utf16_to_string(&units), "\u{1D11E}mus\u{FFFD}ic\u{FFFD}");
    assert_eq!(c_utf16_to_string(&[0xD834, 0xD834, 0xDD1E]), "\u{FFFD}\u{1D11E}");
    assert_eq!(c_utf16_to_string(&[0xD834, 0x41]), "\u{FFFD}A");
    assert_eq!(c_utf16_to_string(&[0xDBFF, 0xDFFF]), "\u{10FFFF}");
    assert_eq!(c_utf16_to_string(&[0xD7FF, 0xE000, 0xFFFF]), "\u{D7FF}\u{E000}\u{FFFF}");
    assert_eq!(c_utf16_to_string(&[0xDC00, 0xD800]), "\u{FFFD}\u{FFFD}");
}

#[test]
fn lowest_flag_marks_the_primary_monitor() {
    assert!(output_is_primary(1));
    assert!(output_is_primary(3));
    assert!(!output_is_primary(0));
    assert!(!output_is_primary(2));
}

#[test]
fn source_zero_is_the_first_primary_output() {
    assert_eq!(get_capture_source(&vec![false, true, false, true], 0), Some(1));
    assert_eq!(get_capture_source(&vec![false, false], 0), None);
    assert_eq!(get_capture_source(&vec![], 0), None);
}

#[test]
fn other_sources_count_the_outputs_that_are_not_primary() {
    let primary = vec![false, true, false, false];
    assert_eq!(get_capture_source(&primary, 1), Some(0));
    assert_eq!(get_capture_source(&primary, 2), Some(2));
    assert_eq!(get_capture_source(&primary, 3), Some(3));
    assert_eq!(get_capture_source(&primary, 4), None);
    assert_eq!(get_capture_source(&vec![true], 1), None);
}

#[test]
fn sources_are_distinct_and_the_search_may_stop() {
    let primary = vec![false, true, false, true, false];
    let mut seen: Vec<usize> = Vec::new();
    for cs in 0..6 {
        if let Some(i) = get_capture_source(&primary, cs) {
            assert!(!seen.contains(&i));
            seen.push(i);
            let first = primary[..i + 1].to_vec();
            assert_eq!(get_capture_source(&first, cs), Some(i));
        }
    }
    assert_eq!(seen, vec![1, 0, 2, 4]);
}

fn pixel(n: u8) -> BGRA8 {
    BGRA8 { b: n, g: 0, r: 0, a: 255 }
}

fn numbers(pixels: &[BGRA8]) -> Vec<u8> {
    pixels.iter().map(|p| p.b).collect()
}

/// Three rows of two pixels, the rows three pixels apart.
fn surface() -> Vec<BGRA8> {
    vec![1, 2, 0, 3, 4, 0, 5, 6].into_iter().map(pixel).collect()
}

#[test]
fn pixels_have_four_bytes() {
    assert_eq!(DXGI_PIXEL_SIZE, 4);
    assert_eq!(pitch_pixels(7680), 1920);
    assert_eq!(pitch_pixels(7), 1);
    assert_eq!(pitch_pixels(3), 0);
    assert!(BGRA8 { b: 1, g: 0, r: 0, a: 0 } > BGRA8 { b: 0, g: 9, r: 9, a: 9 });
}

#[test]
fn size_is_that_of_the_rectangle() {
    let rect = Rect { left: -1920, top: 10, right: 0, bottom: 1090 };
    assert!(is_measurable(rect));
    assert_eq!(output_size(rect), (1920, 1080));
    let wide = Rect { left: i32::MIN, top: 0, right: 1, bottom: 1 };
    assert!(!is_measurable(wide));
    let tall = Rect { left: 0, top: -1, right: 1, bottom: i32::MAX };
    assert!(!is_measurable(tall));
}

#[test]
fn picture_that_is_not_turned() {
    for rotation in [Rotation::Identity, Rotation::Unspecified] {
        let layout = Layout { width: 2, height: 3, pitch: 3, rotation };
        assert_eq!(layout.mapped_len(), 8);
        assert_eq!(numbers(&layout.read_picture(&surface())), vec![1, 2, 3, 4, 5, 6]);
    }
}

#[test]
fn picture_turned_by_90_degrees() {
    let layout = Layout { width: 3, height: 2, pitch: 3, rotation: Rotation::Rotate90 };
    assert_eq!(layout.mapped_len(), 8);
    assert_eq!(numbers(&layout.read_picture(&surface())), vec![5, 3, 1, 6, 4, 2]);
    assert_eq!(layout.pixel_index(1, 0), 7);
}

#[test]
fn picture_turned_by_180_degrees() {
    let layout = Layout { width: 2, height: 3, pitch: 3, rotation: Rotation::Rotate180 };
    assert_eq!(layout.mapped_len(), 8);
    assert_eq!(numbers(&layout.read_picture(&surface())), vec![6, 5, 4, 3, 2, 1]);
}

#[test]
fn picture_turned_by_270_degrees() {
    let layout = Layout { width: 3, height: 2, pitch: 3, rotation: Rotation::Rotate270 };
    assert_eq!(layout.mapped_len(), 8);
    assert_eq!(numbers(&layout.read_picture(&surface())), vec![2, 4, 6, 1, 3, 5]);
}

#[test]
fn packed_picture_is_the_surface() {
    let layout = Layout { width: 4, height: 2, pitch: 4, rotation: Rotation::Identity };
    assert_eq!(layout.mapped_len(), 8);
    assert_eq!(layout.read_picture(&surface()), surface());
}

#[test]
fn pixels_are_read_once() {
    for rotation in [Rotation::Identity, Rotation::Rotate90, Rotation::Rotate180, Rotation::Rotate270]
    {
        let layout = Layout { width: 4, height: 3, pitch: 5, rotation };
        let mut seen: Vec<usize> = Vec::new();
        for row in 0..3 {
            for col in 0..4 {
                let index = layout.pixel_index(row, col);
                assert!(index < layout.mapped_len());
                assert!(!seen.contains(&index));
                seen.push(index);
            }
        }
    }
}

#[test]
fn empty_picture() {
    let layout = Layout { width: 0, height: 3, pitch: 0, rotation: Rotation::Identity };
    assert!(layout.is_readable());
    assert_eq!(layout.mapped_len(), 0);
    assert!(layout.read_picture(&[]).is_empty());
}

#[test]
fn pictures_that_cannot_be_taken() {
    let layout = Layout { width: 2, height: 2, pitch: 0, rotation: Rotation::Identity };
    assert!(!layout.is_readable());
    let layout = Layout { width: usize::MAX, height: 2, pitch: 1, rotation: Rotation::Identity };
    assert!(!layout.is_readable());
    let layout = Layout { width: isize::MAX as usize / 4, height: 2, pitch: 1, rotation: Rotation::Identity };
    assert!(!layout.is_readable());
    let layout = Layout { width: 1 << 20, height: 1 << 20, pitch: usize::MAX, rotation: Rotation::Identity };
    assert!(!layout.is_readable());
    let layout = Layout { width: 1920, height: 1080, pitch: 1920, rotation: Rotation::Identity };
    assert!(layout.is_readable());
}

#[test]
fn asking_for_an_interface_lets_go_of_the_pointer() {
    let mut drops: Vec<usize> = Vec::new();
    let object: UniqueCOMPtr<IDXGIResource> = UniqueCOMPtr::from_ptr(16);
    assert_eq!(object.as_ptr(), 16);
    let texture: Result<UniqueCOMPtr<ID3D11Texture2D>, i32> =
        object.query_interface(0, 32, &mut drops);
    assert_eq!(drops, vec![16]);
    let texture = texture.unwrap_or_else(|hr| panic!("{}", hr));
    assert_eq!(texture.as_ptr(), 32);
    let refused: Result<UniqueCOMPtr<IDXGIResource>, i32> =
        texture.query_interface(-5, 0, &mut drops);
    assert_eq!(refused.err(), Some(-5));
    assert_eq!(drops, vec![16, 32]);
}

#[test]
fn readable_texture_is_staged_for_reading() {
    let desc = TextureDesc {
        width: 1920,
        height: 1080,
        mip_levels: 1,
        array_size: 1,
        format: 87,
        sample_count: 1,
        sample_quality: 0,
        usage: 0,
        bind_flags: 40,
        cpu_access_flags: 0,
        misc_flags: 2,
    };
    let readable = readable_desc(desc);
    assert_eq!(readable.usage, 3);
    assert_eq!(readable.bind_flags, 0);
    assert_eq!(readable.cpu_access_flags, 0x20000);
    assert_eq!(readable.misc_flags, 0);
    assert_eq!((readable.width, readable.height, readable.format), (1920, 1080, 87));
    assert_eq!((readable.mip_levels, readable.array_size), (1, 1));
    assert_eq!((readable.sample_count, readable.sample_quality), (1, 0));
}

#[test]
fn calls_on_a_duplicated_output() {
    let output = DuplicatedOutput {
        device: UniqueCOMPtr::from_ptr(1),
        device_context: UniqueCOMPtr::from_ptr(2),
        output: UniqueCOMPtr::from_ptr(3),
        output_duplication: UniqueCOMPtr::from_ptr(4),
    };
    assert_eq!(output.get_desc(), ComCall::GetOutputDesc { output: 3 });
    assert_eq!(output.release_frame(), ComCall::ReleaseFrame { duplication: 4 });
    let grab = output.get_frame(9);
    assert_eq!(
        grab.pending(),
        Some(ComCall::AcquireNextFrame { duplication: 4, timeout_ms: 9 })
    );
}
