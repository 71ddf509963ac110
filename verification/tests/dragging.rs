use feather_fences::dragout::{
    build_drop_effect, build_hdrop, format_at, hdrop_format, is_supported_get_format,
    preferred_drop_effect_format, FileDataObject, FileDropSource, FileFormatEnum, FormatEtc,
    CF_HDROP, DATADIR_GET, DATA_E_FORMATETC, DRAGDROP_S_CANCEL, DRAGDROP_S_DROP,
    DRAGDROP_S_USEDEFAULTCURSORS, DRAG_EFFECTS, DROPEFFECT_COPY, DROPEFFECT_MOVE, DROPEFFECT_NONE,
    E_INVALIDARG, E_NOTIMPL, S_FALSE, S_OK,
};
use feather_fences::droptarget::{extract_paths, first_effect, FenceDropTarget};

/// A number such as the system gives out for registered formats.
const PREFERRED: u16 = 0xC0B2;

#[test]
fn advertises_file_paths_and_move_preference() {
    let paths = hdrop_format();
    let preference = preferred_drop_effect_format(PREFERRED);

    assert_ne!(paths.cf_format, preference.cf_format);
    assert!(is_supported_get_format(&paths, PREFERRED));
    assert!(is_supported_get_format(&preference, PREFERRED));
    assert!(format_at(2, PREFERRED).is_none());
}

#[test]
fn preferred_effect_payload_requests_move() {
    let block = build_drop_effect(DROPEFFECT_MOVE);
    assert!(!block.is_empty());
    assert_eq!(
        u32::from_ne_bytes([block[0], block[1], block[2], block[3]]).to_le(),
        DROPEFFECT_MOVE
    );
    assert_eq!(block.len(), 4);
}

#[test]
fn formats_stand_in_their_places() {
    assert_eq!(format_at(0, PREFERRED), Some(hdrop_format()));
    assert_eq!(format_at(1, PREFERRED), Some(preferred_drop_effect_format(PREFERRED)));
    let f = hdrop_format();
    assert_eq!((f.cf_format, f.aspect, f.lindex, f.tymed), (15, 1, -1, 1));
}

#[test]
fn other_formats_are_not_supported() {
    let good = hdrop_format();
    assert!(!is_supported_get_format(&FormatEtc { aspect: 2, ..good }, PREFERRED));
    assert!(!is_supported_get_format(&FormatEtc { lindex: 0, ..good }, PREFERRED));
    assert!(!is_supported_get_format(&FormatEtc { tymed: 2, ..good }, PREFERRED));
    assert!(!is_supported_get_format(&FormatEtc { cf_format: 1, ..good }, PREFERRED));
    assert!(is_supported_get_format(&FormatEtc { tymed: 3, ..good }, PREFERRED));
}

#[test]
fn file_list_has_header_paths_and_two_zeros() {
    let block = build_hdrop(&vec!["C:\\a".to_string(), "箱".to_string()]);
    let mut expected: Vec<u8> = vec![20, 0, 0, 0, 0, 0, 0, 0, 0, 0, 0, 0, 0, 0, 0, 0, 1, 0, 0, 0];
    for unit in "C:\\a\0箱\0\0".encode_utf16() {
        expected.extend_from_slice(&unit.to_le_bytes());
    }
    assert_eq!(block, expected);
    assert_eq!(build_hdrop(&Vec::new()).len(), 22);
}

#[test]
fn characters_beyond_the_basic_plane_take_two_units() {
    let block = build_hdrop(&vec!["\u{1F4C1}".to_string()]);
    assert_eq!(&block[20..], &[0x3D, 0xD8, 0xC1, 0xDC, 0, 0, 0, 0]);
}

#[test]
fn data_comes_in_the_formats_on_offer_only() {
    let files = FileDataObject { paths: vec!["C:\\x.txt".to_string()] };
    assert_eq!(
        files.get_data(Some(hdrop_format()), PREFERRED),
        Ok(build_hdrop(&files.paths))
    );
    assert_eq!(
        files.get_data(Some(preferred_drop_effect_format(PREFERRED)), PREFERRED),
        Ok(vec![2, 0, 0, 0])
    );
    let other = FormatEtc { cf_format: 1, ..hdrop_format() };
    assert_eq!(files.get_data(Some(other), PREFERRED), Err(DATA_E_FORMATETC));
    assert_eq!(files.get_data(None, PREFERRED), Err(DATA_E_FORMATETC));
    assert_eq!(files.query_get_data(Some(hdrop_format()), PREFERRED), S_OK);
    assert_eq!(files.query_get_data(Some(other), PREFERRED), DATA_E_FORMATETC);
    assert_eq!(files.query_get_data(None, PREFERRED), DATA_E_FORMATETC);
    assert!(files.enum_format_etc(DATADIR_GET).is_ok());
    assert_eq!(files.enum_format_etc(2).err(), Some(E_NOTIMPL));
}

#[test]
fn formats_are_enumerated_once() {
    let mut e = FileFormatEnum::new();
    assert_eq!(e.next(1, true, PREFERRED), (vec![hdrop_format()], S_OK));
    let mut second = e.duplicate();
    let rest = preferred_drop_effect_format(PREFERRED);
    assert_eq!(e.next(5, true, PREFERRED), (vec![rest], S_FALSE));
    assert_eq!(e.next(1, true, PREFERRED), (vec![], S_FALSE));
    assert_eq!(e.next(0, true, PREFERRED), (vec![], S_OK));
    assert_eq!(second.next(1, true, PREFERRED), (vec![rest], S_OK));
    e.reset();
    assert_eq!(e.next(2, true, PREFERRED), (vec![hdrop_format(), rest], S_OK));
}

#[test]
fn enumeration_without_a_buffer_stays() {
    let mut e = FileFormatEnum::new();
    assert_eq!(e.next(1, false, PREFERRED), (vec![], E_INVALIDARG));
    assert_eq!(e.next(1, true, PREFERRED).0, vec![hdrop_format()]);
}

#[test]
fn skipping_says_whether_there_were_as_many() {
    let mut e = FileFormatEnum::new();
    assert_eq!(e.skip(1), Ok(()));
    assert_eq!(e.skip(2), Err(S_FALSE));
    assert_eq!(e.skip(0), Ok(()));
    assert_eq!(e.next(1, true, PREFERRED), (vec![], S_FALSE));
}

#[test]
fn drag_ends_by_escape_or_by_letting_go() {
    let source = FileDropSource;
    assert_eq!(source.query_continue_drag(true, 1), DRAGDROP_S_CANCEL);
    assert_eq!(source.query_continue_drag(false, 8), DRAGDROP_S_DROP);
    assert_eq!(source.query_continue_drag(false, 9), S_OK);
    assert_eq!(source.give_feedback(DROPEFFECT_COPY), DRAGDROP_S_USEDEFAULTCURSORS);
    assert_eq!(DRAG_EFFECTS, DROPEFFECT_COPY | DROPEFFECT_MOVE);
    assert_eq!(CF_HDROP, 15);
}

#[test]
fn drop_target_announces_copy_and_takes_files() {
    let target = FenceDropTarget::new(77);
    let files = vec!["C:\\x".to_string()];
    assert_eq!(first_effect(&Vec::new()), DROPEFFECT_NONE);
    assert_eq!(target.drag_enter(&files), DROPEFFECT_COPY);
    assert_eq!(target.drag_over(), DROPEFFECT_COPY);
    assert_eq!(target.drop(&files), (DROPEFFECT_MOVE, Some(77)));
    assert_eq!(target.drop(&Vec::new()), (DROPEFFECT_NONE, None));
}

#[test]
fn dragged_files_arrive_where_they_are_dropped() {
    let paths = vec!["C:\\a b.txt".to_string(), "D:\\收纳箱\\𝄞".to_string()];
    let block = build_hdrop(&paths);
    let start = u32::from_le_bytes([block[0], block[1], block[2], block[3]]) as usize;
    let units: Vec<u16> =
        block[start..].chunks(2).map(|b| u16::from_le_bytes([b[0], b[1]])).collect();
    let listed: Vec<Vec<u16>> =
        units.split(|u| *u == 0).take_while(|t| !t.is_empty()).map(|t| t.to_vec()).collect();
    let lengths: Vec<usize> = listed.iter().map(|t| t.len()).collect();
    let buffers: Vec<Vec<u16>> = listed
        .into_iter()
        .map(|mut t| {
            t.push(0);
            t
        })
        .collect();
    assert_eq!(extract_paths(&buffers, &lengths), paths);
}

#[test]
fn dropped_paths_are_cut_at_their_length() {
    let mut a: Vec<u16> = "C:\\收纳箱".encode_utf16().collect();
    let n = a.len();
    a.push(0);
    let broken = vec![0x41, 0xD800, 0x42, 0];
    assert_eq!(
        extract_paths(&vec![a, broken], &vec![n, 3]),
        vec!["C:\\收纳箱".to_string(), "A\u{FFFD}B".to_string()]
    );
}
