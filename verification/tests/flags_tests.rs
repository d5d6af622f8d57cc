use ifop::flags::{
    flag_value, translate, FOF_ALLOWUNDO, FOF_CONFIRMMOUSE, FOF_FILESONLY, FOF_MULTIDESTFILES,
    FOF_NOCONFIRMATION, FOF_NOCONFIRMMKDIR, FOF_NOCOPYSECURITYATTRIBS, FOF_NOERRORUI,
    FOF_NORECURSEREPARSE, FOF_NORECURSION, FOF_NO_CONNECTED_ELEMENTS, FOF_NO_UI,
    FOF_RENAMEONCOLLISION, FOF_SILENT, FOF_SIMPLEPROGRESS, FOF_WANTMAPPINGHANDLE,
    FOF_WANTNUKEWARNING,
};

#[test]
fn every_name_maps_to_its_bit() {
    assert_eq!(flag_value("ALLOWUNDO"), Some(FOF_ALLOWUNDO));
    assert_eq!(flag_value("CONFIRMMOUSE"), Some(FOF_CONFIRMMOUSE));
    assert_eq!(flag_value("FILESONLY"), Some(FOF_FILESONLY));
    assert_eq!(flag_value("MULTIDESTFILES"), Some(FOF_MULTIDESTFILES));
    assert_eq!(flag_value("NOCONFIRMATION"), Some(FOF_NOCONFIRMATION));
    assert_eq!(flag_value("NOCONFIRMMKDIR"), Some(FOF_NOCONFIRMMKDIR));
    assert_eq!(flag_value("NO_CONNECTED_ELEMENTS"), Some(FOF_NO_CONNECTED_ELEMENTS));
    assert_eq!(flag_value("NOCOPYSECURITYATTRIBS"), Some(FOF_NOCOPYSECURITYATTRIBS));
    assert_eq!(flag_value("NOERRORUI"), Some(FOF_NOERRORUI));
    assert_eq!(flag_value("NORECURSEREPARSE"), Some(FOF_NORECURSEREPARSE));
    assert_eq!(flag_value("NORECURSION"), Some(FOF_NORECURSION));
    assert_eq!(flag_value("NO_UI"), Some(FOF_NO_UI));
    assert_eq!(flag_value("RENAMEONCOLLISION"), Some(FOF_RENAMEONCOLLISION));
    assert_eq!(flag_value("SILENT"), Some(FOF_SILENT));
    assert_eq!(flag_value("SIMPLEPROGRESS"), Some(FOF_SIMPLEPROGRESS));
    assert_eq!(flag_value("WANTMAPPINGHANDLE"), Some(FOF_WANTMAPPINGHANDLE));
    assert_eq!(flag_value("WANTNUKEWARNING"), Some(FOF_WANTNUKEWARNING));
}

#[test]
fn bit_values_match_the_wire_format() {
    assert_eq!(FOF_MULTIDESTFILES, 0x1);
    assert_eq!(FOF_CONFIRMMOUSE, 0x2);
    assert_eq!(FOF_SILENT, 0x4);
    assert_eq!(FOF_RENAMEONCOLLISION, 0x8);
    assert_eq!(FOF_NOCONFIRMATION, 0x10);
    assert_eq!(FOF_WANTMAPPINGHANDLE, 0x20);
    assert_eq!(FOF_ALLOWUNDO, 0x40);
    assert_eq!(FOF_FILESONLY, 0x80);
    assert_eq!(FOF_SIMPLEPROGRESS, 0x100);
    assert_eq!(FOF_NOCONFIRMMKDIR, 0x200);
    assert_eq!(FOF_NOERRORUI, 0x400);
    assert_eq!(FOF_NOCOPYSECURITYATTRIBS, 0x800);
    assert_eq!(FOF_NORECURSION, 0x1000);
    assert_eq!(FOF_NO_CONNECTED_ELEMENTS, 0x2000);
    assert_eq!(FOF_WANTNUKEWARNING, 0x4000);
    assert_eq!(FOF_NORECURSEREPARSE, 0x8000);
}

#[test]
fn no_ui_bundles_the_four_ui_suppressors() {
    assert_eq!(
        FOF_NO_UI,
        FOF_SILENT | FOF_NOCONFIRMATION | FOF_NOERRORUI | FOF_NOCONFIRMMKDIR
    );
}

#[test]
fn unknown_name_is_not_recognized() {
    assert_eq!(flag_value("ALLOW_UNDO"), None);
    assert_eq!(flag_value("allowundo"), None);
    assert_eq!(flag_value(""), None);
    assert_eq!(flag_value("FOF_ALLOWUNDO"), None);
}

#[test]
fn absent_flag_string_translates_to_nothing() {
    assert_eq!(translate(None), None);
}

#[test]
fn translate_ors_the_named_bits() {
    assert_eq!(translate(Some("ALLOWUNDO")), Some(FOF_ALLOWUNDO));
    assert_eq!(
        translate(Some("ALLOWUNDO|NORECURSION")),
        Some(FOF_ALLOWUNDO | FOF_NORECURSION)
    );
    assert_eq!(
        translate(Some("SILENT|NOCONFIRMATION|NOERRORUI|NOCONFIRMMKDIR")),
        Some(FOF_NO_UI)
    );
}

#[test]
fn translate_is_order_and_duplicate_insensitive() {
    let forward = translate(Some("ALLOWUNDO|NORECURSION|SILENT"));
    let backward = translate(Some("SILENT|NORECURSION|ALLOWUNDO"));
    let doubled = translate(Some("ALLOWUNDO|SILENT|NORECURSION|ALLOWUNDO|SILENT"));
    assert_eq!(forward, backward);
    assert_eq!(forward, doubled);
    assert_eq!(forward, Some(FOF_ALLOWUNDO | FOF_NORECURSION | FOF_SILENT));
}

#[test]
fn unrecognized_tokens_contribute_nothing() {
    assert_eq!(
        translate(Some("BOGUS|ALLOWUNDO|NOPE")),
        Some(FOF_ALLOWUNDO)
    );
    assert_eq!(translate(Some("BOGUS|NOPE")), Some(0));
    assert_eq!(translate(Some("")), Some(0));
}
