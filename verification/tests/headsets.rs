use tenpod::headset::{
    find_signature, line_matches_signature, match_headsets, resolve_headsets, signature_table,
    HeadsetDevice, HeadsetSignature,
};
use tenpod::text::chars_of;

fn names(found: &[HeadsetDevice]) -> Vec<&'static str> {
    found.iter().map(|d| d.display_name).collect()
}

#[test]
fn table_lists_the_known_models_in_order() {
    let table = signature_table();
    let rows: Vec<(u16, u16, &str)> =
        table.iter().map(|s| (s.vendor_id, s.product_id, s.display_name)).collect();
    assert_eq!(
        rows,
        vec![
            (0x28de, 0x2012, "Valve Index"),
            (0x28de, 0x2000, "HTC Vive"),
            (0x28de, 0x2101, "HTC Vive Pro"),
            (0x28de, 0x2102, "HTC Vive Cosmos"),
            (0x2833, 0x0186, "Meta Quest 2"),
            (0x2833, 0x0187, "Meta Quest Pro"),
            (0x2833, 0x0188, "Meta Quest 3"),
            (0x2d40, 0x2000, "Pico 4"),
            (0x03f0, 0x0580, "HP Reverb G2"),
            (0x0483, 0x0101, "Pimax 5K/8K"),
        ]
    );
}

#[test]
fn valve_index_line_is_matched() {
    let found = resolve_headsets("Bus 001 Device 004: ID 28de:2012 Valve Software Index HMD\n");
    assert_eq!(
        found,
        vec![HeadsetDevice { vendor_id: 0x28de, product_id: 0x2012, display_name: "Valve Index" }]
    );
}

#[test]
fn unknown_devices_give_an_empty_result() {
    assert_eq!(resolve_headsets("Bus 001 Device 002: ID 8087:0029 Intel Corp.\n"), vec![]);
    assert_eq!(resolve_headsets(""), vec![]);
    assert_eq!(resolve_headsets("\n\n"), vec![]);
}

#[test]
fn vendor_alone_or_product_alone_is_no_match() {
    assert_eq!(resolve_headsets("Bus 001 Device 004: ID 28de:1142 Valve Software\n"), vec![]);
    assert_eq!(resolve_headsets("Bus 001 Device 004: ID 1234:2012 Something\n"), vec![]);
}

#[test]
fn identifiers_must_stand_on_one_line() {
    assert_eq!(resolve_headsets("ID 28de:0000\nID 0000:2012\n"), vec![]);
}

#[test]
fn identifiers_match_anywhere_in_the_line() {
    let found = resolve_headsets("serial 2012 of vendor 28de\n");
    assert_eq!(names(&found), vec!["Valve Index"]);
}

#[test]
fn upper_case_identifiers_do_not_match() {
    assert_eq!(resolve_headsets("Bus 001 Device 004: ID 28DE:2012 Valve\n"), vec![]);
}

#[test]
fn matches_follow_line_order_not_table_order() {
    let text = "Bus 002 Device 003: ID 03f0:0580 HP, Inc Reverb G2\n\
                Bus 001 Device 002: ID 8087:0029 Intel Corp.\n\
                Bus 001 Device 007: ID 2833:0186 Oculus Quest 2\n\
                Bus 001 Device 004: ID 28de:2012 Valve Software Index\n";
    let found = resolve_headsets(text);
    assert_eq!(names(&found), vec!["HP Reverb G2", "Meta Quest 2", "Valve Index"]);
}

#[test]
fn reordering_the_table_keeps_the_order_of_matches() {
    let text = "ID 03f0:0580\nID 2833:0186\nID 28de:2012\n";
    let mut table = signature_table();
    let forward = match_headsets(text, &table);
    table.reverse();
    let backward = match_headsets(text, &table);
    assert_eq!(forward, backward);
    assert_eq!(names(&forward), vec!["HP Reverb G2", "Meta Quest 2", "Valve Index"]);
}

#[test]
fn a_line_yields_the_first_signature_only() {
    // Matches both "HTC Vive" (28de:2000) and "Valve Index" (28de:2012).
    let found = resolve_headsets("ID 28de:2000 next to 2012\n");
    assert_eq!(names(&found), vec!["Valve Index"]);
    let mut table = signature_table();
    table.swap(0, 1);
    let found = match_headsets("ID 28de:2000 next to 2012\n", &table);
    assert_eq!(names(&found), vec!["HTC Vive"]);
}

#[test]
fn equal_lines_are_matched_once_each() {
    let found = resolve_headsets("ID 2d40:2000 Pico\nID 2d40:2000 Pico\n");
    assert_eq!(names(&found), vec!["Pico 4", "Pico 4"]);
}

#[test]
fn an_empty_table_matches_nothing() {
    assert_eq!(match_headsets("ID 28de:2012\n", &[]), vec![]);
}

#[test]
fn a_custom_table_is_matched() {
    let table = [HeadsetSignature { vendor_id: 0x0abc, product_id: 0x000f, display_name: "Lab" }];
    let found = match_headsets("x\nBus 001: ID 0abc:000f\n", &table);
    assert_eq!(
        found,
        vec![HeadsetDevice { vendor_id: 0x0abc, product_id: 0x000f, display_name: "Lab" }]
    );
}

#[test]
fn signature_matching_on_a_single_line() {
    let sig = HeadsetSignature { vendor_id: 0x2833, product_id: 0x0188, display_name: "Meta Quest 3" };
    assert!(line_matches_signature(&chars_of("ID 2833:0188"), &sig));
    assert!(!line_matches_signature(&chars_of("ID 2833:0187"), &sig));
    let table = signature_table();
    assert_eq!(find_signature(&chars_of("ID 2833:0188"), &table), Some(sig));
    assert_eq!(find_signature(&chars_of("ID 2833:0189"), &table), None);
}

#[test]
fn no_line_yields_more_than_one_device() {
    let text = "ID 28de:2012 2000 2101 2102\nID 2833:0186 0187 0188\nnothing\n";
    let found = resolve_headsets(text);
    assert_eq!(names(&found), vec!["Valve Index", "Meta Quest 2"]);
    assert!(found.len() <= text.lines().count());
}

#[test]
fn every_known_model_is_found_by_its_identifiers() {
    for sig in signature_table() {
        let line = format!("Bus 001 Device 002: ID {:04x}:{:04x} x\n", sig.vendor_id, sig.product_id);
        let found = resolve_headsets(&line);
        assert_eq!(found.len(), 1, "{}", line);
        assert_eq!(found[0].vendor_id, sig.vendor_id);
        // "Pico 4" shares its product identifier with "HTC Vive", but not its vendor.
        assert_eq!(found[0].display_name, sig.display_name);
    }
}
