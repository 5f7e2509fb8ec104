//! Relative catalog routes, kept in one place so every consumer of the
//! remote catalog builds the same URLs.
use vstd::prelude::*;
use vstd::string::*;

verus! {

/// Route for the list of all games.
pub fn game_list() -> (r: String)
    ensures
        r@ == "games/"@,
{
    String::from_str("games/")
}

/// Route for one game's record.
pub fn game(id: &str) -> (r: String)
    ensures
        r@ == "games/"@ + id@,
{
    let mut s = String::from_str("games/");
    s.append(id);
    s
}

/// Route for one game's icon image.
pub fn game_icon(id: &str) -> (r: String)
    ensures
        r@ == "games/"@ + id@ + "/icon"@,
{
    let mut s = String::from_str("games/");
    s.append(id);
    s.append("/icon");
    s
}

/// Route for one game's banner image.
pub fn game_banner(id: &str) -> (r: String)
    ensures
        r@ == "games/"@ + id@ + "/banner"@,
{
    let mut s = String::from_str("games/");
    s.append(id);
    s.append("/banner");
    s
}

/// Route for one game's packaged binary archive.
pub fn game_download(id: &str) -> (r: String)
    ensures
        r@ == "games/"@ + id@ + "/game"@,
{
    let mut s = String::from_str("games/");
    s.append(id);
    s.append("/game");
    s
}

/// Route for the list of all tags.
pub fn tag_list() -> (r: String)
    ensures
        r@ == "tags/"@,
{
    String::from_str("tags/")
}

/// Route for one tag.
pub fn tag(name: &str) -> (r: String)
    ensures
        r@ == "tags/"@ + name@,
{
    let mut s = String::from_str("tags/");
    s.append(name);
    s
}

/// Route for the games carrying one tag.
pub fn tag_games(name: &str) -> (r: String)
    ensures
        r@ == "tags/"@ + name@ + "/games"@,
{
    let mut s = String::from_str("tags/");
    s.append(name);
    s.append("/games");
    s
}

/// Route for one user's record.
pub fn user(uid: &str) -> (r: String)
    ensures
        r@ == "users/"@ + uid@,
{
    let mut s = String::from_str("users/");
    s.append(uid);
    s
}

} // verus!
