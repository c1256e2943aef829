//! Where a worker's import map comes from.
use vstd::prelude::*;
use vstd::string::StringExecFns;
use crate::urls::{directory_url, has_prefix, maybe_absolute, parse_url, percent_decode, str_has_prefix, url_decoded, url_parsed};

verus! {

/// Where an import map is read from.
pub enum ImportMapSource {
    /// A `data:` URI: the map's JSON, and the URL of the directory that its
    /// paths resolve against.
    Inline { json: String, base_url: String },
    /// A file, at this path relative to the working directory.
    File { path: String },
}

/// Why an import map path was refused.
pub enum ImportMapSourceError {
    /// The `data:` URI does not parse; the parse error's text.
    InvalidUri(String),
    /// A part of the `data:` URI does not decode to UTF-8 text.
    InvalidEncoding,
    /// "invalid import map base url": the directory is no absolute path.
    InvalidBaseUrl,
}

/// The JSON and the base directory a `data:` URI encodes: its path and its
/// query, percent-decoded (a missing query is an empty one).
pub open spec fn data_uri_parts(path: Seq<char>) -> Result<(Seq<char>, Seq<char>), Option<Seq<char>>> {
    match url_parsed(path) {
        Err(e) => Err(Some(e)),
        Ok(u) => match url_decoded(u.path) {
            None => Err(None),
            Some(json) => match url_decoded(match u.query {
                Some(q) => q,
                None => Seq::empty(),
            }) {
                None => Err(None),
                Some(dir) => Ok((json, dir)),
            },
        },
    }
}

/// Reads the JSON and the base directory that a `data:` URI encodes (see
/// `data_uri_parts`); the error is the parse error's text, or none when a
/// part does not decode to UTF-8 text.
pub fn read_data_uri(path: &str) -> (r: Result<(String, String), Option<String>>)
    ensures
        match r {
            Ok((json, dir)) => data_uri_parts(path@) == Ok::<(Seq<char>, Seq<char>), Option<Seq<char>>>((json@, dir@)),
            Err(Some(e)) => data_uri_parts(path@) == Err::<(Seq<char>, Seq<char>), Option<Seq<char>>>(Some(e@)),
            Err(None) => data_uri_parts(path@) == Err::<(Seq<char>, Seq<char>), Option<Seq<char>>>(None),
        },
{
    let parts = match parse_url(path) {
        Ok(p) => p,
        Err(e) => return Err(Some(e)),
    };
    let json = match percent_decode(parts.path.as_str()) {
        Some(j) => j,
        None => return Err(None),
    };
    proof {
        reveal_strlit("");
    }
    let query = match &parts.query {
        Some(q) => q.as_str(),
        None => "",
    };
    assert(query@ == (match parts@.query {
        Some(q) => q,
        None => Seq::<char>::empty(),
    }));
    match percent_decode(query) {
        Some(dir) => Ok((json, dir)),
        None => Err(None),
    }
}

/// Reads where the import map at `path` comes from. A `data:` URI encodes
/// the map's JSON in its path and the directory its paths resolve against
/// in its query; any other path names a file. The directory is handed to
/// `url::Url::from_directory_path`, whose answer depends on the platform:
/// an empty or relative directory is refused on every platform.
pub fn import_map_source(path: &str) -> (r: Result<ImportMapSource, ImportMapSourceError>)
    ensures
        !has_prefix(path@, "data:"@) ==> (r matches Ok(ImportMapSource::File { path: p }) && p@ == path@),
        has_prefix(path@, "data:"@) ==> match data_uri_parts(path@) {
            Err(Some(e)) => r matches Err(ImportMapSourceError::InvalidUri(m)) && m@ == e,
            Err(None) => r matches Err(ImportMapSourceError::InvalidEncoding),
            Ok((json, dir)) => match r {
                Ok(ImportMapSource::Inline { json: j, base_url }) => j@ == json
                    && maybe_absolute(dir)
                    && base_url@.len() >= 6 && base_url@.subrange(0, 5) == "file:"@ && base_url@.last() == '/',
                Err(ImportMapSourceError::InvalidBaseUrl) => true,
                _ => false,
            },
        },
{
    if !str_has_prefix(path, "data:") {
        return Ok(ImportMapSource::File { path: String::from_str(path) });
    }
    let (json, dir) = match read_data_uri(path) {
        Ok(parts) => parts,
        Err(Some(e)) => return Err(ImportMapSourceError::InvalidUri(e)),
        Err(None) => return Err(ImportMapSourceError::InvalidEncoding),
    };
    match directory_url(dir.as_str()) {
        Some(base_url) => Ok(ImportMapSource::Inline { json, base_url }),
        None => Err(ImportMapSourceError::InvalidBaseUrl),
    }
}

} // verus!
