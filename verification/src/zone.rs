use vstd::prelude::*;

verus! {

/// Edge length of one tile on the canvas, in pixels.
pub const TILE_PIXELS: i32 = 32;

/// A rectangle of tile-space that fills the canvas when drawn: `width` by
/// `height` tiles with its top-left tile at (`x`, `y`).
#[derive(Clone, Copy, Debug, PartialEq, Eq, Structural)]
pub struct Zone {
    pub x: i32,
    pub y: i32,
    pub width: i32,
    pub height: i32,
}

/// The first zone of `zones` that contains the tile coordinate, if any.
pub open spec fn zone_at(zones: Seq<Zone>, x: int, y: int) -> Option<Zone>
    decreases zones.len(),
{
    if zones.len() == 0 {
        None
    } else if zones[0].contains(x, y) {
        Some(zones[0])
    } else {
        zone_at(zones.drop_first(), x, y)
    }
}

/// One band of zones at height `y0`, from `x0` rightwards until the map's
/// width is covered.
pub open spec fn zone_row(x0: int, y0: int, width: int, zw: int, zh: int) -> Seq<Zone>
    decreases (if x0 < width { width - x0 } else { 0 }),
{
    if x0 >= width || zw <= 0 {
        Seq::empty()
    } else {
        let first = Zone { x: x0 as i32, y: y0 as i32, width: zw as i32, height: zh as i32 };
        let rest = zone_row(x0 + zw, y0, width, zw, zh);
        seq![first] + rest
    }
}

/// The bands of zones from `y0` downwards until the map's height is covered.
pub open spec fn zone_rows(y0: int, width: int, height: int, zw: int, zh: int) -> Seq<Zone>
    decreases (if y0 < height { height - y0 } else { 0 }),
{
    if y0 >= height || zh <= 0 {
        Seq::empty()
    } else {
        let rest = zone_rows(y0 + zh, width, height, zw, zh);
        zone_row(0, y0, width, zw, zh) + rest
    }
}

/// The zone table of a map of `width` by `height` tiles shown on a canvas of
/// `canvas_sx` by `canvas_sy` pixels: each zone holds as many whole tiles as
/// the canvas shows, and the zones tile the map band by band, left to right.
/// A map without tiles, or a canvas smaller than one tile, has no zones.
pub open spec fn zones_of(width: int, height: int, canvas_sx: int, canvas_sy: int) -> Seq<Zone> {
    if width <= 0 || height <= 0 || canvas_sx < TILE_PIXELS || canvas_sy < TILE_PIXELS {
        Seq::empty()
    } else {
        zone_rows(0, width, height, canvas_sx / (TILE_PIXELS as int), canvas_sy / (TILE_PIXELS as int))
    }
}

/// A coordinate is in some zone of a joined table exactly when it is in
/// some zone of either part.
pub proof fn lemma_zone_at_join(a: Seq<Zone>, b: Seq<Zone>, x: int, y: int)
    ensures
        zone_at(a + b, x, y) == (match zone_at(a, x, y) {
            Some(z) => Some(z),
            None => zone_at(b, x, y),
        }),
    decreases a.len(),
{
    if a.len() == 0 {
        assert(a + b =~= b);
    } else {
        assert((a + b).drop_first() =~= a.drop_first() + b);
        lemma_zone_at_join(a.drop_first(), b, x, y);
    }
}

/// A band of zones covers every column of the map at the band's rows.
pub proof fn lemma_zone_row_covers(x0: int, y0: int, width: int, zw: int, zh: int, x: int, y: int)
    requires
        0 <= x0 <= x < width <= i32::MAX,
        0 <= y0 <= y < y0 + zh,
        y0 <= i32::MAX,
        0 < zw <= i32::MAX,
        0 < zh <= i32::MAX,
    ensures
        zone_at(zone_row(x0, y0, width, zw, zh), x, y) is Some,
    decreases width - x0,
{
    let first = Zone { x: x0 as i32, y: y0 as i32, width: zw as i32, height: zh as i32 };
    let rest = zone_row(x0 + zw, y0, width, zw, zh);
    lemma_zone_at_join(seq![first], rest, x, y);
    assert(seq![first].drop_first() =~= Seq::<Zone>::empty());
    if x >= x0 + zw {
        lemma_zone_row_covers(x0 + zw, y0, width, zw, zh, x, y);
    }
}

/// The bands of zones cover every tile of the map from the first band's top
/// row on.
pub proof fn lemma_zone_rows_cover(y0: int, width: int, height: int, zw: int, zh: int, x: int, y: int)
    requires
        0 <= x < width <= i32::MAX,
        0 <= y0 <= y < height <= i32::MAX,
        0 < zw <= i32::MAX,
        0 < zh <= i32::MAX,
    ensures
        zone_at(zone_rows(y0, width, height, zw, zh), x, y) is Some,
    decreases height - y0,
{
    let band = zone_row(0, y0, width, zw, zh);
    let rest = zone_rows(y0 + zh, width, height, zw, zh);
    lemma_zone_at_join(band, rest, x, y);
    if y < y0 + zh {
        lemma_zone_row_covers(0, y0, width, zw, zh, x, y);
    } else {
        lemma_zone_rows_cover(y0 + zh, width, height, zw, zh, x, y);
    }
}

/// On a canvas that shows at least one tile, the zone table of a map covers
/// every tile of the map.
pub proof fn lemma_zones_cover_map(width: i32, height: i32, canvas_sx: i32, canvas_sy: i32, x: int, y: int)
    requires
        canvas_sx >= TILE_PIXELS,
        canvas_sy >= TILE_PIXELS,
        0 <= x < width,
        0 <= y < height,
    ensures
        zone_at(zones_of(width as int, height as int, canvas_sx as int, canvas_sy as int), x, y) is Some,
{
    let zw = canvas_sx as int / (TILE_PIXELS as int);
    let zh = canvas_sy as int / (TILE_PIXELS as int);
    lemma_zone_rows_cover(0, width as int, height as int, zw, zh, x, y);
}

impl Zone {
    /// Whether the tile coordinate lies in this zone.
    pub open spec fn contains(self, x: int, y: int) -> bool {
        self.x <= x < self.x + self.width && self.y <= y < self.y + self.height
    }

    /// Whether the tile coordinate lies in this zone.
    pub fn covers(&self, x: i32, y: i32) -> (out: bool)
        ensures
            out == self.contains(x as int, y as int),
    {
        self.x <= x && (x as i64) < (self.x as i64) + (self.width as i64) && self.y <= y && (y as i64)
            < (self.y as i64) + (self.height as i64)
    }

    /// Computes the zone table of a map.
    #[verifier::loop_isolation(false)]
    pub fn from_map(width: i32, height: i32, canvas_sx: i32, canvas_sy: i32) -> (out: Vec<Zone>)
        ensures
            out@ == zones_of(width as int, height as int, canvas_sx as int, canvas_sy as int),
    {
        let mut out: Vec<Zone> = Vec::new();
        if width <= 0 || height <= 0 || canvas_sx < TILE_PIXELS || canvas_sy < TILE_PIXELS {
            return out;
        }
        let zw: i32 = canvas_sx / TILE_PIXELS;
        let zh: i32 = canvas_sy / TILE_PIXELS;
        let ghost total = zones_of(width as int, height as int, canvas_sx as int, canvas_sy as int);
        let mut y0: i64 = 0;
        while y0 < height as i64
            invariant
                zw > 0,
                zh > 0,
                0 <= y0,
                y0 < height + zh,
                out@ + zone_rows(y0 as int, width as int, height as int, zw as int, zh as int) == total,
            decreases (if y0 < height { height - y0 } else { 0 }),
        {
            let ghost rest = zone_rows(y0 + zh, width as int, height as int, zw as int, zh as int);
            let ghost before = out@;
            let mut x0: i64 = 0;
            while x0 < width as i64
                invariant
                    zw > 0,
                    0 <= x0,
                    x0 < width + zw,
                    0 <= y0 < height,
                    out@ + zone_row(x0 as int, y0 as int, width as int, zw as int, zh as int) + rest
                        == total,
                decreases (if x0 < width { width - x0 } else { 0 }),
            {
                let ghost prev = out@;
                let ghost tail = zone_row(x0 + zw, y0 as int, width as int, zw as int, zh as int);
                let z = Zone { x: x0 as i32, y: y0 as i32, width: zw, height: zh };
                out.push(z);
                assert(out@ + tail =~= prev + (seq![z] + tail));
                x0 = x0 + zw as i64;
            }
            assert(out@ + Seq::<Zone>::empty() =~= out@);
            y0 = y0 + zh as i64;
        }
        assert(out@ + Seq::<Zone>::empty() =~= out@);
        out
    }

    /// Looks up the zone that contains a tile coordinate: the first one in
    /// table order.
    #[verifier::loop_isolation(false)]
    pub fn get_current_zone(x: i32, y: i32, zones: &Vec<Zone>) -> (out: Option<Zone>)
        ensures
            out == zone_at(zones@, x as int, y as int),
    {
        let mut i: usize = 0;
        assert(zones@.subrange(0, zones@.len() as int) =~= zones@);
        while i < zones.len()
            invariant
                i <= zones.len(),
                zone_at(zones@, x as int, y as int) == zone_at(
                    zones@.subrange(i as int, zones@.len() as int),
                    x as int,
                    y as int,
                ),
            decreases zones.len() - i,
        {
            let z = zones[i];
            if z.covers(x, y) {
                return Some(z);
            }
            assert(zones@.subrange(i as int, zones@.len() as int).drop_first() =~= zones@.subrange(
                i + 1,
                zones@.len() as int,
            ));
            i = i + 1;
        }
        None
    }
}

} // verus!
