//! Room in a header map.

use corx::header::roomy;
use http::{HeaderMap, HeaderName, HeaderValue};

fn filled(names: usize) -> HeaderMap {
    let mut map = HeaderMap::new();
    for i in 0..names {
        let name = HeaderName::try_from(format!("x-name-{i}")).unwrap();
        map.insert(name, HeaderValue::from_static("v"));
    }
    map
}

#[test]
fn small_maps_are_roomy() {
    assert!(roomy(&HeaderMap::new(), 6553));
    assert!(roomy(&filled(40), 20));
}

#[test]
fn room_ends_with_the_largest_map() {
    assert!(roomy(&filled(6553), 1));
    assert!(!roomy(&filled(6554), 1));
    assert!(roomy(&filled(6554), 0));
}
