use vstd::prelude::*;
use vstd::string::StrSliceExecFns;

verus! {

/// The server's settings, read once at startup and never changed.
#[derive(Debug, PartialEq, Eq)]
pub struct ServerConfig {
    pub host: String,
    pub port: String,
    /// The document root, absolute and canonical.
    pub root: String,
    /// Reserved for authentication; not used by the server.
    pub username: Option<String>,
    /// Reserved for authentication; not used by the server.
    pub password: Option<String>,
}

impl ServerConfig {
    /// The document root is an absolute path.
    pub open spec fn wf(&self) -> bool {
        self.root@.len() > 0 && self.root@[0] == '/'
    }

    /// Whether the document root is an absolute path.
    pub fn has_valid_root(&self) -> (r: bool)
        ensures
            r == self.wf(),
    {
        self.root.as_str().unicode_len() > 0 && self.root.as_str().get_char(0) == '/'
    }
}

} // verus!
