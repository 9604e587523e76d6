use org_roamers::assets::{
    default_route_content, extension, get_loader, is_child_of_root, serve_assets, AssetPlan, FORBIDDEN, NOT_FOUND,
};
use org_roamers::config::AssetPolicy;

fn plan(path: &str, mime: &str, cc: &str) -> AssetPlan {
    AssetPlan { path: path.into(), mime: mime.into(), cache_control: cc.into() }
}

#[test]
fn extensions_follow_std() {
    for p in ["a/b.tar.gz", ".hidden", "a.", "dir/", "x.svg", "noext", "..", "a/.b.c", ""] {
        let ours: Option<String> = extension(p).map(|v| v.into_iter().collect());
        let std_ext = std::path::Path::new(p).extension().map(|e| e.to_string_lossy().into_owned());
        assert_eq!(ours, std_ext, "{p}");
    }
}

#[test]
fn client_files() {
    assert_eq!(
        default_route_content(None, false),
        Ok(plan("index.html", "text/html", "no-cache, must-revalidate"))
    );
    assert_eq!(
        default_route_content(Some("/assets/app.js".into()), true),
        Ok(plan("assets/app.js", "text/javascript", "public, max-age=86400"))
    );
    assert_eq!(
        default_route_content(Some("/fonts/k.woff2".into()), true),
        Ok(plan("fonts/k.woff2", "font/woff2", "public, max-age=31536000, immutable"))
    );
    assert_eq!(
        default_route_content(Some("favicon.ico".into()), true),
        Ok(plan("favicon.ico", "image/x-icon", "public, max-age=604800"))
    );
    assert_eq!(
        default_route_content(Some("/data.json".into()), true),
        Ok(plan("data.json", "application/json", "public, max-age=3600"))
    );
    assert_eq!(default_route_content(Some("/x.exe".into()), true), Err(NOT_FOUND));
    assert_eq!(default_route_content(Some("/README".into()), false), Err(NOT_FOUND));
}

#[test]
fn note_files() {
    assert_eq!(
        serve_assets("/notes", "img/a.png", &AssetPolicy::AllowChildrenOfRoot, true),
        Ok(plan("/notes/img/a.png", "image/png", "public, max-age=604800"))
    );
    assert_eq!(
        serve_assets("/notes", "/abs/a.png", &AssetPolicy::AllowAll, false),
        Ok(plan("/abs/a.png", "image/png", "no-cache, must-revalidate"))
    );
    assert_eq!(serve_assets("/notes", "a.png", &AssetPolicy::ForbidAll, true), Err(FORBIDDEN));
    assert_eq!(serve_assets("/notes", "a.ico", &AssetPolicy::AllowAll, true), Err(NOT_FOUND));
    assert_eq!(serve_assets("/notes", "a.html", &AssetPolicy::AllowAll, true), Err(NOT_FOUND));
}

#[test]
fn loader_paths() {
    let l = get_loader("./web/dist/".into());
    assert_eq!(l.full_path("index.html"), "./web/dist/index.html");
    let l = get_loader("/srv".into());
    assert_eq!(l.full_path("a/b.js"), "/srv/a/b.js");
}

#[test]
fn children_of_root_stay_under_it() {
    let p = AssetPolicy::AllowChildrenOfRoot;
    assert_eq!(serve_assets("/notes", "/etc/a.png", &p, true), Err(FORBIDDEN));
    assert_eq!(serve_assets("/notes", "../a.png", &p, true), Err(FORBIDDEN));
    assert_eq!(serve_assets("/notes", "img/../../a.png", &p, true), Err(FORBIDDEN));
    assert_eq!(serve_assets("/notes", "img/..", &p, true), Err(FORBIDDEN));
    assert!(serve_assets("/notes", "img/..a.png", &p, true).is_ok());
    assert!(serve_assets("/notes", "a..b/x.png", &p, true).is_ok());
    assert!(is_child_of_root("img/./a.png"));
    assert!(!is_child_of_root(".."));
    assert!(serve_assets("/notes", "../a.png", &AssetPolicy::AllowAll, true).is_ok());
}
