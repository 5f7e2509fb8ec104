//! The local cache layout under a configured root directory: one
//! subdirectory per game identifier, with fixed file names for persisted
//! metadata, images, the unpacked artifact tree and the generated sandbox
//! manifest.
use vstd::prelude::*;
use vstd::string::*;

verus! {

/// `{root}/{id}`: the directory a game's cached files live in.
pub fn game_dir(root: &str, id: &str) -> (r: String)
    ensures
        r@ == root@ + "/"@ + id@,
{
    let mut s = root.to_owned();
    s.append("/");
    s.append(id);
    s
}

/// `{root}/{id}/game.json`: the persisted metadata record.
pub fn game_json_path(root: &str, id: &str) -> (r: String)
    ensures
        r@ == root@ + "/"@ + id@ + "/game.json"@,
{
    let mut s = game_dir(root, id);
    s.append("/game.json");
    s
}

/// `{root}/{id}/icon.png`: the cached icon image.
pub fn icon_path(root: &str, id: &str) -> (r: String)
    ensures
        r@ == root@ + "/"@ + id@ + "/icon.png"@,
{
    let mut s = game_dir(root, id);
    s.append("/icon.png");
    s
}

/// `{root}/{id}/banner.png`: the cached banner image.
pub fn banner_path(root: &str, id: &str) -> (r: String)
    ensures
        r@ == root@ + "/"@ + id@ + "/banner.png"@,
{
    let mut s = game_dir(root, id);
    s.append("/banner.png");
    s
}

/// `{root}/{id}/publish`: the unpacked artifact tree.
pub fn publish_dir(root: &str, id: &str) -> (r: String)
    ensures
        r@ == root@ + "/"@ + id@ + "/publish"@,
{
    let mut s = game_dir(root, id);
    s.append("/publish");
    s
}

/// `{root}/{id}/flatpak.yml`: the generated sandbox manifest.
pub fn manifest_path(root: &str, id: &str) -> (r: String)
    ensures
        r@ == root@ + "/"@ + id@ + "/flatpak.yml"@,
{
    let mut s = game_dir(root, id);
    s.append("/flatpak.yml");
    s
}

/// `{root}/{id}/state-dir`: the builder's own state directory.
pub fn state_dir(root: &str, id: &str) -> (r: String)
    ensures
        r@ == root@ + "/"@ + id@ + "/state-dir"@,
{
    let mut s = game_dir(root, id);
    s.append("/state-dir");
    s
}

/// `{root}/{id}/build`: the builder's output directory.
pub fn build_dir(root: &str, id: &str) -> (r: String)
    ensures
        r@ == root@ + "/"@ + id@ + "/build"@,
{
    let mut s = game_dir(root, id);
    s.append("/build");
    s
}

/// `{root}/{id}/publish/{entry}`: a path inside the unpacked artifact tree.
pub fn publish_entry_path(root: &str, id: &str, entry: &str) -> (r: String)
    ensures
        r@ == root@ + "/"@ + id@ + "/publish"@ + "/"@ + entry@,
{
    let mut s = publish_dir(root, id);
    s.append("/");
    s.append(entry);
    s
}

} // verus!
