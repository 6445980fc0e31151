use tile_downloader::batch::DownloadOutcome;
use tile_downloader::text::{
    failure_line, outcome_line, progress_line, push_decimal, tile_dir, tile_path, tile_url,
};
use tile_downloader::tile::TileIndex;

#[test]
fn decimal_digits() {
    let mut s = String::from("n=");
    push_decimal(&mut s, 0);
    assert_eq!(s, "n=0");
    let mut s = String::new();
    push_decimal(&mut s, 4294967295);
    assert_eq!(s, "4294967295");
    let mut s = String::new();
    push_decimal(&mut s, 1020);
    assert_eq!(s, "1020");
}

#[test]
fn request_url() {
    let t = TileIndex { zoom: 10, x: 511, y: 340 };
    assert_eq!(
        tile_url("https://tiles.example.com/base", "SECRET-REDACTED", t),
        "https://tiles.example.com/base/10/511/340.png?apikey=SECRET-REDACTED"
    );
}

#[test]
fn storage_path() {
    let t = TileIndex { zoom: 5, x: 17, y: 9 };
    assert_eq!(tile_dir(t), "tiles/5/17");
    assert_eq!(tile_path(t), "tiles/5/17/9.png");
}

#[test]
fn siblings_share_directory_not_file() {
    let a = TileIndex { zoom: 6, x: 30, y: 20 };
    let b = TileIndex { zoom: 6, x: 30, y: 21 };
    assert_eq!(tile_dir(a), tile_dir(b));
    assert_ne!(tile_path(a), tile_path(b));
}

#[test]
fn log_lines() {
    let t = TileIndex { zoom: 2, x: 1, y: 3 };
    assert_eq!(progress_line(t), "Downloaded tile 2/1/3");
    assert_eq!(failure_line(t, "timed out"), "Error downloading tile 2/1/3: timed out");
    assert_eq!(outcome_line(&DownloadOutcome::Success { tile: t }), "Downloaded tile 2/1/3");
    assert_eq!(
        outcome_line(&DownloadOutcome::Failure { tile: t, cause: String::from("404") }),
        "Error downloading tile 2/1/3: 404"
    );
}
