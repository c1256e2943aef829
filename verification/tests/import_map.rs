use edge_runtime_core::import_map::{import_map_source, ImportMapSource, ImportMapSourceError};

#[test]
fn plain_paths_name_files() {
    match import_map_source("./import_map.json") {
        Ok(ImportMapSource::File { path }) => assert_eq!(path, "./import_map.json"),
        _ => panic!("a path was not read as a file"),
    }
}

#[test]
fn data_uris_carry_the_map_and_its_directory() {
    match import_map_source("data:%7B%22imports%22%3A%7B%7D%7D?%2Fhome%2Fdeno") {
        Ok(ImportMapSource::Inline { json, base_url }) => {
            assert_eq!(json, "{\"imports\":{}}");
            assert_eq!(base_url, "file:///home/deno/");
        }
        _ => panic!("a data URI was refused"),
    }
}

#[test]
fn data_uris_need_an_absolute_directory() {
    assert!(matches!(import_map_source("data:%7B%7D?relative"), Err(ImportMapSourceError::InvalidBaseUrl)));
    assert!(matches!(import_map_source("data:%7B%7D"), Err(ImportMapSourceError::InvalidBaseUrl)));
}

#[test]
fn data_uris_must_decode_to_text() {
    assert!(matches!(import_map_source("data:%FF?%2Ftmp"), Err(ImportMapSourceError::InvalidEncoding)));
}
