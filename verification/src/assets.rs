//! Serving the web client and the files that notes point to: which file a
//! request names, its content type, whether the asset policy lets it out,
//! and how long a browser may cache it.
//!
//! Reading the bytes is left to the caller: the functions here say what to
//! read and how to answer, or which status to answer with.
use vstd::prelude::*;

use crate::config::AssetPolicy;
use crate::html::{join_path, join_path_exec};
use crate::text::{chars_eq, copy_range, rfind_char, string_of, to_chars};

verus! {

/// The last position of `c` in `s`.
pub open spec fn rfind_spec(s: Seq<char>, c: char) -> Option<int>
    decreases s.len(),
{
    if s.len() == 0 {
        None
    } else if s.last() == c {
        Some(s.len() - 1)
    } else {
        rfind_spec(s.drop_last(), c)
    }
}

proof fn lemma_rfind(s: Seq<char>, c: char, r: Option<usize>)
    requires
        r matches Some(k) ==> k < s.len() && s[k as int] == c && forall|j: int|
            k < j < s.len() ==> s[j] != c,
        r is None ==> forall|j: int| 0 <= j < s.len() ==> s[j] != c,
    ensures
        rfind_spec(s, c) == match r {
            Some(k) => Some(k as int),
            None => None::<int>,
        },
    decreases s.len(),
{
    if s.len() > 0 {
        match r {
            Some(k) => {
                if (k as int) < s.len() - 1 {
                    lemma_rfind(s.drop_last(), c, r);
                }
            },
            None => {
                lemma_rfind(s.drop_last(), c, r);
            },
        }
    }
}

/// The last component of a path, as `std::path::Path::file_name` gives it.
pub uninterp spec fn file_name_of(path: Seq<char>) -> Option<Seq<char>>;

/// Calls `std::path::Path::file_name` on `path`. The result is named
/// `file_name_of` of the path; nothing more is claimed of it.
#[verifier::external_body]
fn file_name(path: &str) -> (r: Option<String>)
    ensures
        match r {
            Some(n) => file_name_of(path@) == Some(n@),
            None => file_name_of(path@) is None,
        },
{
    std::path::Path::new(path).file_name().map(|n| n.to_string_lossy().into_owned())
}

/// The extension of a file name, as std documents `Path::extension`: none
/// without a name or without a `.` in it, none for a name that begins with
/// its only `.`, else what follows the last `.`.
pub open spec fn extension_of(name: Option<Seq<char>>) -> Option<Seq<char>> {
    match name {
        None => None,
        Some(n) => match rfind_spec(n, '.') {
            None => None,
            Some(k) => if k == 0 {
                None
            } else {
                Some(n.skip(k + 1))
            },
        },
    }
}

/// The extension of a path.
pub fn extension(path: &str) -> (r: Option<Vec<char>>)
    ensures
        match r {
            Some(e) => extension_of(file_name_of(path@)) == Some(e@),
            None => extension_of(file_name_of(path@)) is None,
        },
{
    match file_name(path) {
        None => None,
        Some(n) => {
            let c = to_chars(n.as_str());
            let k = rfind_char(c.as_slice(), '.');
            proof {
                lemma_rfind(c@, '.', k);
            }
            match k {
                None => None,
                Some(k) => {
                    let n = c.len();
                    assert(k < n);
                    if k == 0 {
                        None
                    } else {
                        let e = copy_range(c.as_slice(), k + 1, n);
                        assert(c@.subrange(k + 1, c@.len() as int) =~= c@.skip(k + 1));
                        Some(e)
                    }
                },
            }
        },
    }
}

/// Whether `c` is the text `t`.
fn is(c: &Vec<char>, t: &str) -> (r: bool)
    ensures
        r == (c@ == t@),
{
    let tc = to_chars(t);
    chars_eq(c.as_slice(), tc.as_slice())
}

/// The content type of a file of the web client, by extension.
pub open spec fn client_mime(ext: Seq<char>) -> Option<Seq<char>> {
    if ext == "html"@ {
        Some("text/html"@)
    } else if ext == "js"@ {
        Some("text/javascript"@)
    } else if ext == "css"@ {
        Some("text/css"@)
    } else if ext == "ico"@ {
        Some("image/x-icon"@)
    } else if ext == "woff2"@ {
        Some("font/woff2"@)
    } else if ext == "woff"@ {
        Some("font/woff"@)
    } else if ext == "ttf"@ {
        Some("font/ttf"@)
    } else if ext == "otf"@ {
        Some("font/otf"@)
    } else if ext == "eot"@ {
        Some("application/vnd.ms-fontobject"@)
    } else if ext == "png"@ {
        Some("image/png"@)
    } else if ext == "jpg"@ || ext == "jpeg"@ {
        Some("image/jpeg"@)
    } else if ext == "gif"@ {
        Some("image/gif"@)
    } else if ext == "svg"@ {
        Some("image/svg+xml"@)
    } else if ext == "webp"@ {
        Some("image/webp"@)
    } else if ext == "json"@ {
        Some("application/json"@)
    } else if ext == "xml"@ {
        Some("application/xml"@)
    } else {
        None
    }
}

/// The content type of a file that a note points to, by extension: images
/// and fonts only.
pub open spec fn asset_mime(ext: Seq<char>) -> Option<Seq<char>> {
    if ext == "jpeg"@ || ext == "jpg"@ {
        Some("image/jpeg"@)
    } else if ext == "png"@ {
        Some("image/png"@)
    } else if ext == "gif"@ {
        Some("image/gif"@)
    } else if ext == "svg"@ {
        Some("image/svg+xml"@)
    } else if ext == "webp"@ {
        Some("image/webp"@)
    } else if ext == "woff2"@ {
        Some("font/woff2"@)
    } else if ext == "woff"@ {
        Some("font/woff"@)
    } else if ext == "ttf"@ {
        Some("font/ttf"@)
    } else if ext == "otf"@ {
        Some("font/otf"@)
    } else if ext == "eot"@ {
        Some("application/vnd.ms-fontobject"@)
    } else {
        None
    }
}

/// A font.
pub open spec fn is_font(ext: Seq<char>) -> bool {
    ext == "woff2"@ || ext == "woff"@ || ext == "ttf"@ || ext == "otf"@ || ext == "eot"@
}

/// An image (`ico` counts for the web client only).
pub open spec fn is_image(ext: Seq<char>, with_ico: bool) -> bool {
    ext == "png"@ || ext == "jpg"@ || ext == "jpeg"@ || ext == "gif"@ || ext == "svg"@ || ext
        == "webp"@ || (with_ico && ext == "ico"@)
}

/// How long a browser may keep a file: not at all in a development build;
/// in a release build a year for fonts, a day for the client's stylesheets
/// and scripts, a week for images and an hour for the rest.
pub open spec fn cache_control(ext: Seq<char>, client: bool, release: bool) -> Seq<char> {
    if !release {
        "no-cache, must-revalidate"@
    } else if is_font(ext) {
        "public, max-age=31536000, immutable"@
    } else if client && (ext == "css"@ || ext == "js"@) {
        "public, max-age=86400"@
    } else if is_image(ext, client) {
        "public, max-age=604800"@
    } else {
        "public, max-age=3600"@
    }
}

fn mime_client_exec(e: &Vec<char>) -> (r: Option<&'static str>)
    ensures
        match r {
            Some(m) => client_mime(e@) == Some(m@),
            None => client_mime(e@) is None,
        },
{
    if is(e, "html") {
        Some("text/html")
    } else if is(e, "js") {
        Some("text/javascript")
    } else if is(e, "css") {
        Some("text/css")
    } else if is(e, "ico") {
        Some("image/x-icon")
    } else if is(e, "woff2") {
        Some("font/woff2")
    } else if is(e, "woff") {
        Some("font/woff")
    } else if is(e, "ttf") {
        Some("font/ttf")
    } else if is(e, "otf") {
        Some("font/otf")
    } else if is(e, "eot") {
        Some("application/vnd.ms-fontobject")
    } else if is(e, "png") {
        Some("image/png")
    } else if is(e, "jpg") || is(e, "jpeg") {
        Some("image/jpeg")
    } else if is(e, "gif") {
        Some("image/gif")
    } else if is(e, "svg") {
        Some("image/svg+xml")
    } else if is(e, "webp") {
        Some("image/webp")
    } else if is(e, "json") {
        Some("application/json")
    } else if is(e, "xml") {
        Some("application/xml")
    } else {
        None
    }
}

fn mime_asset_exec(e: &Vec<char>) -> (r: Option<&'static str>)
    ensures
        match r {
            Some(m) => asset_mime(e@) == Some(m@),
            None => asset_mime(e@) is None,
        },
{
    if is(e, "jpeg") || is(e, "jpg") {
        Some("image/jpeg")
    } else if is(e, "png") {
        Some("image/png")
    } else if is(e, "gif") {
        Some("image/gif")
    } else if is(e, "svg") {
        Some("image/svg+xml")
    } else if is(e, "webp") {
        Some("image/webp")
    } else if is(e, "woff2") {
        Some("font/woff2")
    } else if is(e, "woff") {
        Some("font/woff")
    } else if is(e, "ttf") {
        Some("font/ttf")
    } else if is(e, "otf") {
        Some("font/otf")
    } else if is(e, "eot") {
        Some("application/vnd.ms-fontobject")
    } else {
        None
    }
}

fn cache_control_exec(e: &Vec<char>, client: bool, release: bool) -> (r: &'static str)
    ensures
        r@ == cache_control(e@, client, release),
{
    if !release {
        "no-cache, must-revalidate"
    } else if is(e, "woff2") || is(e, "woff") || is(e, "ttf") || is(e, "otf") || is(e, "eot") {
        "public, max-age=31536000, immutable"
    } else if client && (is(e, "css") || is(e, "js")) {
        "public, max-age=86400"
    } else if is(e, "png") || is(e, "jpg") || is(e, "jpeg") || is(e, "gif") || is(e, "svg") || is(
        e,
        "webp",
    ) || (client && is(e, "ico")) {
        "public, max-age=604800"
    } else {
        "public, max-age=3600"
    }
}

/// What to answer a request for a file with: the file to read, its content
/// type and its `cache-control` header.
#[derive(Clone, Debug, PartialEq)]
pub struct AssetPlan {
    pub path: String,
    pub mime: String,
    pub cache_control: String,
}

/// The status of a refused request: not found.
pub const NOT_FOUND: u16 = 404;

/// The status of a refused request: forbidden by the asset policy.
pub const FORBIDDEN: u16 = 403;

/// The file of the web client that a url names: the url without one
/// leading `/`, or `index.html` when there is none.
pub open spec fn client_path(url: Option<Seq<char>>) -> Seq<char> {
    match url {
        Some(u) => if u.len() > 0 && u[0] == '/' {
            u.drop_first()
        } else {
            u
        },
        None => "index.html"@,
    }
}

/// The answer to a request for a file of the web client: not found when its
/// extension is missing or not served, else the file with its content type
/// and caching.
pub open spec fn client_plan(url: Option<Seq<char>>, release: bool) -> Result<
    (Seq<char>, Seq<char>, Seq<char>),
    u16,
> {
    let p = client_path(url);
    match extension_of(file_name_of(p)) {
        None => Err(NOT_FOUND),
        Some(e) => match client_mime(e) {
            None => Err(NOT_FOUND),
            Some(m) => Ok((p, m, cache_control(e, true, release))),
        },
    }
}

/// The views of an optional string.
pub open spec fn opt_str(o: Option<String>) -> Option<Seq<char>> {
    match o {
        Some(s) => Some(s@),
        None => None,
    }
}

/// The views of a plan or status.
pub open spec fn plan_view(r: Result<AssetPlan, u16>) -> Result<(Seq<char>, Seq<char>, Seq<char>), u16> {
    match r {
        Ok(p) => Ok((p.path@, p.mime@, p.cache_control@)),
        Err(s) => Err(s),
    }
}

/// How to answer a request for a file of the web client (see `client_plan`);
/// `release` tells a release build from a development one.
pub fn default_route_content(url: Option<String>, release: bool) -> (r: Result<AssetPlan, u16>)
    ensures
        plan_view(r) == client_plan(opt_str(url), release),
{
    proof {
        reveal_strlit("index.html");
    }
    let path: String = match &url {
        Some(u) => {
            let c = to_chars(u.as_str());
            if c.len() > 0 && c[0] == '/' {
                let s = copy_range(c.as_slice(), 1, c.len());
                assert(c@.subrange(1, c@.len() as int) =~= c@.drop_first());
                string_of(s.as_slice())
            } else {
                string_of(c.as_slice())
            }
        },
        None => string_of(to_chars("index.html").as_slice()),
    };
    match extension(path.as_str()) {
        None => Err(NOT_FOUND),
        Some(e) => match mime_client_exec(&e) {
            None => Err(NOT_FOUND),
            Some(m) => {
                let cc = cache_control_exec(&e, true, release);
                Ok(
                    AssetPlan {
                        path,
                        mime: string_of(to_chars(m).as_slice()),
                        cache_control: string_of(to_chars(cc).as_slice()),
                    },
                )
            },
        },
    }
}

/// A `..` component of a `/`-separated path starts at `i`.
pub open spec fn dotdot_at(p: Seq<char>, i: int) -> bool {
    &&& 0 <= i
    &&& i + 2 <= p.len()
    &&& p[i] == '.'
    &&& p[i + 1] == '.'
    &&& (i == 0 || p[i - 1] == '/')
    &&& (i + 2 == p.len() || p[i + 2] == '/')
}

/// A path that, joined to a root, stays under it: it is relative and no
/// component of it is `..`.
pub open spec fn child_of_root(file: Seq<char>) -> bool {
    &&& !(file.len() > 0 && file[0] == '/')
    &&& forall|i: int| !#[trigger] dotdot_at(file, i)
}

/// Whether the path stays under the root it is joined to.
pub fn is_child_of_root(file: &str) -> (r: bool)
    ensures
        r == child_of_root(file@),
{
    let c = to_chars(file);
    if c.len() > 0 && c[0] == '/' {
        return false;
    }
    let mut i: usize = 0;
    while i < c.len()
        invariant
            i <= c@.len(),
            c@ == file@,
            forall|k: int| 0 <= k < i ==> !#[trigger] dotdot_at(file@, k),
        decreases c.len() - i,
    {
        if i + 1 < c.len() && c[i] == '.' && c[i + 1] == '.' && (i == 0 || c[i - 1] == '/') && (i + 2 == c.len()
            || c[i + 2] == '/') {
            assert(dotdot_at(file@, i as int));
            return false;
        }
        i = i + 1;
    }
    assert forall|k: int| !#[trigger] dotdot_at(file@, k) by {
        if k >= i as int {
            assert(!(k + 2 <= file@.len()));
        }
    }
    true
}

/// The answer to a request for a file that a note points to: forbidden when
/// the policy forbids all files, or when it allows only children of `root`
/// and the file is absolute or goes up with `..`; else, by the file's
/// extension, not found or the file (as given, or under `root`) with its
/// content type and caching.
pub open spec fn asset_plan(
    root: Seq<char>,
    file: Seq<char>,
    policy: AssetPolicy,
    release: bool,
) -> Result<(Seq<char>, Seq<char>, Seq<char>), u16> {
    match policy {
        AssetPolicy::ForbidAll => Err(FORBIDDEN),
        AssetPolicy::AllowChildrenOfRoot if !child_of_root(file) => Err(FORBIDDEN),
        _ => {
            let path = match policy {
                AssetPolicy::AllowChildrenOfRoot => join_path(root, file),
                _ => file,
            };
            match extension_of(file_name_of(file)) {
                None => Err(NOT_FOUND),
                Some(e) => match asset_mime(e) {
                    None => Err(NOT_FOUND),
                    Some(m) => Ok((path, m, cache_control(e, false, release))),
                },
            }
        },
    }
}

/// How to answer a request for a file that a note points to (see
/// `asset_plan`).
pub fn serve_assets(root: &str, file: &str, asset_policy: &AssetPolicy, release: bool) -> (r: Result<
    AssetPlan,
    u16,
>)
    ensures
        plan_view(r) == asset_plan(root@, file@, *asset_policy, release),
{
    let path: String = match asset_policy {
        AssetPolicy::ForbidAll => {
            return Err(FORBIDDEN);
        },
        AssetPolicy::AllowAll => string_of(to_chars(file).as_slice()),
        AssetPolicy::AllowChildrenOfRoot => {
            if !is_child_of_root(file) {
                return Err(FORBIDDEN);
            }
            let rc = to_chars(root);
            let fc = to_chars(file);
            let j = join_path_exec(rc.as_slice(), fc.as_slice());
            string_of(j.as_slice())
        },
    };
    match extension(file) {
        None => Err(NOT_FOUND),
        Some(e) => match mime_asset_exec(&e) {
            None => Err(NOT_FOUND),
            Some(m) => {
                let cc = cache_control_exec(&e, false, release);
                Ok(
                    AssetPlan {
                        path,
                        mime: string_of(to_chars(m).as_slice()),
                        cache_control: string_of(to_chars(cc).as_slice()),
                    },
                )
            },
        },
    }
}

/// Loads the files of the web client from a directory on disk.
#[derive(Clone, Debug, PartialEq)]
pub struct DynamicLoader {
    pub root: String,
}

impl DynamicLoader {
    pub fn new(root: String) -> (r: DynamicLoader)
        ensures
            r.root@ == root@,
    {
        DynamicLoader { root }
    }

    /// The file on disk that holds a file of the web client.
    pub fn full_path(&self, path: &str) -> (r: String)
        ensures
            r@ == join_path(self.root@, path@),
    {
        let rc = to_chars(self.root.as_str());
        let pc = to_chars(path);
        let j = join_path_exec(rc.as_slice(), pc.as_slice());
        string_of(j.as_slice())
    }
}

/// The loader of the web client's files under `root`.
pub fn get_loader(root: String) -> (r: DynamicLoader)
    ensures
        r.root@ == root@,
{
    DynamicLoader::new(root)
}

/// Every image a note can point to gets its content type: png, jpg, jpeg,
/// gif, svg and webp are served, and jpg and jpeg as `image/jpeg`.
pub proof fn lemma_image_mimes(ext: Seq<char>)
    ensures
        ext == "jpg"@ || ext == "jpeg"@ ==> asset_mime(ext) == Some("image/jpeg"@),
        ext == "png"@ ==> asset_mime(ext) == Some("image/png"@),
        ext == "gif"@ ==> asset_mime(ext) == Some("image/gif"@),
        ext == "svg"@ ==> asset_mime(ext) == Some("image/svg+xml"@),
        ext == "webp"@ ==> asset_mime(ext) == Some("image/webp"@),
{
    reveal_strlit("jpg");
    reveal_strlit("jpeg");
    reveal_strlit("png");
    reveal_strlit("gif");
    reveal_strlit("svg");
    reveal_strlit("webp");
    if ext == "png"@ {
        assert(ext[0] != "jpg"@[0]);
    }
    if ext == "gif"@ {
        assert(ext[0] != "jpg"@[0]);
        assert(ext[0] != "png"@[0]);
    }
    if ext == "svg"@ {
        assert(ext[0] != "jpg"@[0]);
        assert(ext[0] != "png"@[0]);
        assert(ext[0] != "gif"@[0]);
    }
    if ext == "webp"@ {
        assert(ext[0] != "jpeg"@[0]);
    }
}

/// An image under the root, asked for under a policy that allows the
/// root's children, is served from under the root with its image content
/// type: a `.jpg` or `.jpeg` as `image/jpeg`.
pub proof fn lemma_child_images_served(root: Seq<char>, file: Seq<char>, ext: Seq<char>, release: bool)
    requires
        child_of_root(file),
        extension_of(file_name_of(file)) == Some(ext),
        ext == "png"@ || ext == "jpg"@ || ext == "jpeg"@ || ext == "gif"@ || ext == "svg"@
            || ext == "webp"@,
    ensures
        asset_plan(root, file, AssetPolicy::AllowChildrenOfRoot, release) matches Ok((path, mime, _))
            && path == join_path(root, file) && (ext == "jpg"@ || ext == "jpeg"@ ==> mime
            == "image/jpeg"@),
{
    lemma_image_mimes(ext);
}

} // verus!
