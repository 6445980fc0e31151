//! Request URLs, storage paths and progress lines of tiles.

use crate::batch::DownloadOutcome;
use crate::tile::TileIndex;
use vstd::prelude::*;
use vstd::string::StringExecFns;

verus! {

/// The decimal digit that stands for `d`.
pub open spec fn digit_char(d: nat) -> char {
    if d == 0 {
        '0'
    } else if d == 1 {
        '1'
    } else if d == 2 {
        '2'
    } else if d == 3 {
        '3'
    } else if d == 4 {
        '4'
    } else if d == 5 {
        '5'
    } else if d == 6 {
        '6'
    } else if d == 7 {
        '7'
    } else if d == 8 {
        '8'
    } else {
        '9'
    }
}

/// `n` written in decimal, without leading zeros.
pub open spec fn decimal(n: nat) -> Seq<char>
    decreases n,
{
    if n < 10 {
        seq![digit_char(n)]
    } else {
        decimal(n / 10).push(digit_char(n % 10))
    }
}

/// `z/x/y` of a tile.
pub open spec fn tile_key(t: TileIndex) -> Seq<char> {
    decimal(t.zoom as nat) + seq!['/'] + decimal(t.x as nat) + seq!['/'] + decimal(t.y as nat)
}

/// `{base}/{z}/{x}/{y}.png?apikey={key}`.
pub open spec fn url_of(base: Seq<char>, key: Seq<char>, t: TileIndex) -> Seq<char> {
    base + seq!['/'] + tile_key(t) + ".png?apikey="@ + key
}

/// `tiles/{z}/{x}`: the directory that holds a tile's file.
pub open spec fn dir_of(t: TileIndex) -> Seq<char> {
    "tiles/"@ + decimal(t.zoom as nat) + seq!['/'] + decimal(t.x as nat)
}

/// `tiles/{z}/{x}/{y}.png`: where a tile is stored.
pub open spec fn path_of(t: TileIndex) -> Seq<char> {
    dir_of(t) + seq!['/'] + decimal(t.y as nat) + ".png"@
}

/// No decimal numeral holds a `/`, and none is empty.
pub proof fn lemma_decimal_shape(n: nat)
    ensures
        decimal(n).len() >= 1,
        n >= 10 ==> decimal(n).len() >= 2,
        forall|i: int| 0 <= i < decimal(n).len() ==> decimal(n)[i] != '/',
    decreases n,
{
    if n >= 10 {
        lemma_decimal_shape(n / 10);
        let d = decimal(n / 10);
        assert forall|i: int| 0 <= i < decimal(n).len() implies decimal(n)[i] != '/' by {
            if i < d.len() {
                assert(decimal(n)[i] == d[i]);
            }
        }
    }
}

/// Different numbers are written differently.
pub proof fn lemma_decimal_injective(m: nat, n: nat)
    requires
        decimal(m) == decimal(n),
    ensures
        m == n,
    decreases m,
{
    lemma_decimal_shape(m);
    lemma_decimal_shape(n);
    if m >= 10 && n >= 10 {
        let dm = decimal(m);
        assert(dm.drop_last() == decimal(m / 10));
        assert(decimal(n).drop_last() == decimal(n / 10));
        lemma_decimal_injective(m / 10, n / 10);
        assert(dm.last() == digit_char(m % 10));
        assert(decimal(n).last() == digit_char(n % 10));
    } else if m < 10 && n < 10 {
        assert(decimal(m)[0] == digit_char(m));
        assert(decimal(n)[0] == digit_char(n));
    }
}

/// Splitting at the first `/`: two joins of a slash-free part, a `/` and a
/// rest are equal only part for part.
proof fn lemma_split_at_slash(a: Seq<char>, r: Seq<char>, b: Seq<char>, s: Seq<char>)
    requires
        a + seq!['/'] + r == b + seq!['/'] + s,
        forall|i: int| 0 <= i < a.len() ==> a[i] != '/',
        forall|i: int| 0 <= i < b.len() ==> b[i] != '/',
    ensures
        a == b,
        r == s,
{
    let l = a + seq!['/'] + r;
    let m = b + seq!['/'] + s;
    if a.len() < b.len() {
        assert(l[a.len() as int] == '/');
        assert(m[a.len() as int] == b[a.len() as int]);
    } else if b.len() < a.len() {
        assert(m[b.len() as int] == '/');
        assert(l[b.len() as int] == a[b.len() as int]);
    }
    assert(a =~= l.subrange(0, a.len() as int));
    assert(b =~= m.subrange(0, b.len() as int));
    assert(r =~= l.subrange(a.len() as int + 1, l.len() as int));
    assert(s =~= m.subrange(b.len() as int + 1, m.len() as int));
}

/// Equal joins with a common prefix, or a common suffix, have equal rests.
proof fn lemma_cancel(p: Seq<char>, x: Seq<char>, y: Seq<char>)
    ensures
        p + x == p + y ==> x == y,
        x + p == y + p ==> x == y,
{
    if p + x == p + y {
        assert(x =~= (p + x).skip(p.len() as int));
        assert(y =~= (p + y).skip(p.len() as int));
    }
    if x + p == y + p {
        assert(x =~= (x + p).subrange(0, x.len() as int));
        assert(y =~= (y + p).subrange(0, y.len() as int));
    }
}

/// `z/x/y` names one tile only.
proof fn lemma_key_injective(a: TileIndex, b: TileIndex)
    requires
        tile_key(a) == tile_key(b),
    ensures
        a == b,
{
    let slash = seq!['/'];
    let (za, xa, ya) = (decimal(a.zoom as nat), decimal(a.x as nat), decimal(a.y as nat));
    let (zb, xb, yb) = (decimal(b.zoom as nat), decimal(b.x as nat), decimal(b.y as nat));
    assert(tile_key(a) =~= za + slash + (xa + slash + ya));
    assert(tile_key(b) =~= zb + slash + (xb + slash + yb));
    lemma_decimal_shape(a.zoom as nat);
    lemma_decimal_shape(b.zoom as nat);
    lemma_split_at_slash(za, xa + slash + ya, zb, xb + slash + yb);
    lemma_decimal_shape(a.x as nat);
    lemma_decimal_shape(b.x as nat);
    lemma_split_at_slash(xa, ya, xb, yb);
    lemma_decimal_injective(a.zoom as nat, b.zoom as nat);
    lemma_decimal_injective(a.x as nat, b.x as nat);
    lemma_decimal_injective(a.y as nat, b.y as nat);
}

/// Different tiles are stored at different paths, and tiles of one column at
/// one level share their directory: tiles written at the same time never
/// write the same file.
pub proof fn lemma_paths_distinct(a: TileIndex, b: TileIndex)
    ensures
        path_of(a) == path_of(b) <==> a == b,
        a.zoom == b.zoom && a.x == b.x ==> dir_of(a) == dir_of(b),
{
    let prefix = "tiles/"@;
    let png = ".png"@;
    assert(path_of(a) =~= prefix + (tile_key(a) + png));
    assert(path_of(b) =~= prefix + (tile_key(b) + png));
    lemma_cancel(prefix, tile_key(a) + png, tile_key(b) + png);
    lemma_cancel(png, tile_key(a), tile_key(b));
    if path_of(a) == path_of(b) {
        lemma_key_injective(a, b);
    }
}

fn digit_str(d: u32) -> (s: &'static str)
    requires
        d < 10,
    ensures
        s@ == seq![digit_char(d as nat)],
{
    proof {
        reveal_strlit("0");
        reveal_strlit("1");
        reveal_strlit("2");
        reveal_strlit("3");
        reveal_strlit("4");
        reveal_strlit("5");
        reveal_strlit("6");
        reveal_strlit("7");
        reveal_strlit("8");
        reveal_strlit("9");
    }
    if d == 0 {
        "0"
    } else if d == 1 {
        "1"
    } else if d == 2 {
        "2"
    } else if d == 3 {
        "3"
    } else if d == 4 {
        "4"
    } else if d == 5 {
        "5"
    } else if d == 6 {
        "6"
    } else if d == 7 {
        "7"
    } else if d == 8 {
        "8"
    } else {
        "9"
    }
}

/// Appends `n` in decimal to `s`.
pub fn push_decimal(s: &mut String, n: u32)
    ensures
        final(s)@ == old(s)@ + decimal(n as nat),
    decreases n,
{
    if n < 10 {
        s.append(digit_str(n));
    } else {
        push_decimal(s, n / 10);
        s.append(digit_str(n % 10));
        proof {
            assert(final(s)@ =~= old(s)@ + decimal(n as nat));
        }
    }
}

/// Appends `z/x/y` of `t` to `s`.
fn push_key(s: &mut String, t: TileIndex)
    ensures
        final(s)@ == old(s)@ + tile_key(t),
{
    proof {
        reveal_strlit("/");
    }
    push_decimal(s, t.zoom);
    s.append("/");
    push_decimal(s, t.x);
    s.append("/");
    push_decimal(s, t.y);
    assert(final(s)@ =~= old(s)@ + tile_key(t));
}

/// The URL that a tile is fetched from.
pub fn tile_url(base_url: &str, api_key: &str, t: TileIndex) -> (u: String)
    ensures
        u@ == url_of(base_url@, api_key@, t),
{
    proof {
        reveal_strlit("/");
    }
    let mut u = String::from_str(base_url);
    u.append("/");
    push_key(&mut u, t);
    u.append(".png?apikey=");
    u.append(api_key);
    assert(u@ =~= url_of(base_url@, api_key@, t));
    u
}

/// The directory that holds a tile's file.
pub fn tile_dir(t: TileIndex) -> (d: String)
    ensures
        d@ == dir_of(t),
{
    proof {
        reveal_strlit("/");
    }
    let mut d = String::from_str("tiles/");
    push_decimal(&mut d, t.zoom);
    d.append("/");
    push_decimal(&mut d, t.x);
    assert(d@ =~= dir_of(t));
    d
}

/// The path that a tile is stored at.
pub fn tile_path(t: TileIndex) -> (p: String)
    ensures
        p@ == path_of(t),
{
    proof {
        reveal_strlit("/");
    }
    let mut p = tile_dir(t);
    p.append("/");
    push_decimal(&mut p, t.y);
    p.append(".png");
    assert(p@ =~= path_of(t));
    p
}

/// The line that reports a stored tile: `Downloaded tile z/x/y`.
pub fn progress_line(t: TileIndex) -> (l: String)
    ensures
        l@ == "Downloaded tile "@ + tile_key(t),
{
    let mut l = String::from_str("Downloaded tile ");
    push_key(&mut l, t);
    l
}

/// The line that reports a failed tile:
/// `Error downloading tile z/x/y: {cause}`.
pub fn failure_line(t: TileIndex, cause: &str) -> (l: String)
    ensures
        l@ == "Error downloading tile "@ + tile_key(t) + ": "@ + cause@,
{
    let mut l = String::from_str("Error downloading tile ");
    push_key(&mut l, t);
    l.append(": ");
    l.append(cause);
    assert(l@ =~= "Error downloading tile "@ + tile_key(t) + ": "@ + cause@);
    l
}

/// The progress line of a finished tile: the success line or the failure
/// line with its cause.
pub fn outcome_line(outcome: &DownloadOutcome) -> (l: String)
    ensures
        l@ == match outcome {
            DownloadOutcome::Success { tile } => "Downloaded tile "@ + tile_key(*tile),
            DownloadOutcome::Failure { tile, cause } => "Error downloading tile "@ + tile_key(*tile)
                + ": "@ + cause@,
        },
{
    match outcome {
        DownloadOutcome::Success { tile } => progress_line(*tile),
        DownloadOutcome::Failure { tile, cause } => failure_line(*tile, cause.as_str()),
    }
}

} // verus!
