//! Which static asset a request path names.

use crate::text::same_text;
use vstd::prelude::*;

verus! {

/// One of the three assets of the web interface.
#[derive(Clone, Copy, Debug, PartialEq, Eq, Structural)]
pub enum StaticAsset {
    Index,
    Stylesheet,
    Script,
}

/// The asset that a request path names, if any.
pub open spec fn asset_at(path: Seq<char>) -> Option<StaticAsset> {
    if path == "/"@ || path == "/index.html"@ {
        Some(StaticAsset::Index)
    } else if path == "/style.css"@ {
        Some(StaticAsset::Stylesheet)
    } else if path == "/app.js"@ {
        Some(StaticAsset::Script)
    } else {
        None
    }
}

impl StaticAsset {
    /// The media type under which an asset is served.
    pub open spec fn media_type(self) -> Seq<char> {
        match self {
            StaticAsset::Index => "text/html; charset=utf-8"@,
            StaticAsset::Stylesheet => "text/css; charset=utf-8"@,
            StaticAsset::Script => "application/javascript; charset=utf-8"@,
        }
    }

    /// The media type under which the asset is served.
    pub fn content_type(&self) -> (media: &'static str)
        ensures
            media@ == self.media_type(),
    {
        match self {
            StaticAsset::Index => "text/html; charset=utf-8",
            StaticAsset::Stylesheet => "text/css; charset=utf-8",
            StaticAsset::Script => "application/javascript; charset=utf-8",
        }
    }
}

/// The asset that a request path names. Any other path names nothing.
pub fn get_static_file(path: &str) -> (asset: Option<StaticAsset>)
    ensures
        asset == asset_at(path@),
{
    if same_text(path, "/") || same_text(path, "/index.html") {
        Some(StaticAsset::Index)
    } else if same_text(path, "/style.css") {
        Some(StaticAsset::Stylesheet)
    } else if same_text(path, "/app.js") {
        Some(StaticAsset::Script)
    } else {
        None
    }
}

} // verus!
