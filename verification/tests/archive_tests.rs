use std::collections::HashMap;

use pokemonsay::archive::{has_more_pages, needs_refresh, Image, ImageInfo, ParseQuery, QueryPages};

fn image_with_sha1(sha1: &str) -> Image {
    Image {
        title: "File:0025.png".to_string(),
        imageinfo: (ImageInfo {
            url: "https://archives.example.net/0025.png".to_string(),
            sha1: sha1.to_string(),
        },),
    }
}

#[test]
fn missing_local_file_needs_a_refresh() {
    let image = image_with_sha1("a9993e364706816aba3e25717850c26c9cd0d89d");
    assert!(needs_refresh(&image, None));
}

#[test]
fn matching_digest_is_up_to_date() {
    // sha1 of the three bytes "abc"
    let image = image_with_sha1("a9993e364706816aba3e25717850c26c9cd0d89d");
    let local = vec![b'a', b'b', b'c'];
    assert!(!needs_refresh(&image, Some(&local)));
}

#[test]
fn differing_digest_needs_a_refresh() {
    let image = image_with_sha1("a9993e364706816aba3e25717850c26c9cd0d89d");
    let local = vec![b'a', b'b', b'd'];
    assert!(needs_refresh(&image, Some(&local)));
}

#[test]
fn pagination_goes_on_while_parameters_continue() {
    let mut params = HashMap::new();
    params.insert("gcmcontinue".to_string(), "page|token".to_string());
    let more = ParseQuery {
        continuation: Some(params),
        query: QueryPages { pages: HashMap::new() },
    };
    assert!(has_more_pages(&more));
    let done = ParseQuery { continuation: None, query: QueryPages { pages: HashMap::new() } };
    assert!(!has_more_pages(&done));
}
