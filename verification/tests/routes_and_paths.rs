use onboard::paths;
use onboard::routes;

#[test]
fn route_game_list() {
    assert_eq!(routes::game_list(), "games/");
}

#[test]
fn route_game() {
    assert_eq!(routes::game("abc"), "games/abc");
}

#[test]
fn route_game_icon() {
    assert_eq!(routes::game_icon("abc"), "games/abc/icon");
}

#[test]
fn route_game_banner() {
    assert_eq!(routes::game_banner("abc"), "games/abc/banner");
}

#[test]
fn route_game_download() {
    assert_eq!(routes::game_download("abc"), "games/abc/game");
}

#[test]
fn route_tag_list() {
    assert_eq!(routes::tag_list(), "tags/");
}

#[test]
fn route_tag() {
    assert_eq!(routes::tag("fun"), "tags/fun");
}

#[test]
fn route_tag_games() {
    assert_eq!(routes::tag_games("fun"), "tags/fun/games");
}

#[test]
fn route_user() {
    assert_eq!(routes::user("u1"), "users/u1");
}

#[test]
fn cache_layout_paths() {
    assert_eq!(paths::game_dir("/root", "g1"), "/root/g1");
    assert_eq!(paths::game_json_path("/root", "g1"), "/root/g1/game.json");
    assert_eq!(paths::icon_path("/root", "g1"), "/root/g1/icon.png");
    assert_eq!(paths::banner_path("/root", "g1"), "/root/g1/banner.png");
    assert_eq!(paths::publish_dir("/root", "g1"), "/root/g1/publish");
    assert_eq!(paths::manifest_path("/root", "g1"), "/root/g1/flatpak.yml");
    assert_eq!(paths::state_dir("/root", "g1"), "/root/g1/state-dir");
    assert_eq!(paths::build_dir("/root", "g1"), "/root/g1/build");
    assert_eq!(paths::publish_entry_path("/root", "g1", "game.exe"), "/root/g1/publish/game.exe");
}
