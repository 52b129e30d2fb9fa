//! The static content handler: a request path names a file inside the served
//! directory.
use vstd::prelude::*;
use std::sync::Arc;
use crate::arguments::Cli;
use crate::settings::Settings;
use crate::handlers::{joined, sanitized, path_join, sanitize_path};
use crate::handlers::samicpp::files::file_too_big;

verus! {

/// Serves the files of the served directory as they are.
pub struct SimpleHandler {
    pub _args: Arc<Cli>,
    pub settings: Arc<Settings>,
}

impl SimpleHandler {
    /// The file that a request path names: the sanitised path inside the
    /// served directory.
    pub fn target(&self, request_path: &str) -> (res: String)
        ensures
            res@ == joined(self.settings.content.serve_dir@, sanitized(request_path@)),
    {
        let rel = sanitize_path(request_path);
        path_join(self.settings.content.serve_dir.as_str(), rel.as_str())
    }

    /// Whether a file of `len` bytes is refused as too big (503).
    pub fn too_big(&self, len: u64) -> (res: bool)
        ensures
            res == (self.settings.content.max_file_size matches Some(m) && (len as int) > (m as int)),
    {
        file_too_big(len, self.settings.content.max_file_size)
    }
}

} // verus!
