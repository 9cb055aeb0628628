use vstd::prelude::*;

use crate::geometry::{PIXEL, Vec2};

verus! {

/// A solid rectangle of a level: centre and size.
#[derive(Clone, Copy, Debug, PartialEq, Eq, Structural)]
pub struct PlatformRect {
    pub position: Vec2,
    pub size: Vec2,
}

/// The solids of a level, where the player starts and where the goal is.
pub struct Level {
    pub platforms: Vec<PlatformRect>,
    pub player_start: Vec2,
    pub goal: Vec2,
}

/// `num / den` of `total`.
pub open spec fn part(total: int, num: int, den: int) -> int {
    total * num / den
}

pub open spec fn rect(x: int, y: int, w: int, h: int) -> PlatformRect {
    PlatformRect {
        position: Vec2 { x: x as i64, y: y as i64 },
        size: Vec2 { x: (w * PIXEL) as i64, y: (h * PIXEL) as i64 },
    }
}

pub open spec fn point(x: int, y: int) -> Vec2 {
    Vec2 { x: x as i64, y: y as i64 }
}

fn part_of(total: i64, num: i64, den: i64) -> (r: i64)
    requires
        0 <= total <= u32::MAX * PIXEL,
        0 <= num <= 100,
        0 < den <= 100,
        num <= den,
    ensures
        r == part(total as int, num as int, den as int),
        0 <= r <= total,
{
    proof {
        assert(0 <= total * num <= total * den) by (nonlinear_arith)
            requires
                0 <= total,
                0 <= num <= den,
        ;
        assert(0 <= (total * num) as int / den as int <= total) by (nonlinear_arith)
            requires
                0 <= total * num <= total * den,
                0 < den,
        ;
        assert(total * num <= u32::MAX * PIXEL * 100) by (nonlinear_arith)
            requires
                0 <= total <= u32::MAX * PIXEL,
                0 <= num <= 100,
        ;
    }
    total * num / den
}

/// The two levels, laid out on a screen of `screen_width` by `screen_height`
/// pixels.
pub fn get_levels(screen_width: u32, screen_height: u32) -> (r: Vec<Level>)
    ensures
        ({
            let w = screen_width * PIXEL;
            let h = screen_height * PIXEL;
            &&& r@.len() == 2
            &&& r@[0].platforms@ == seq![
                rect(part(w, 1, 2), part(h, 3, 4), 1000, 50),
                rect(part(w, 1, 2), part(h, 1, 2) + 200 * PIXEL, 250, 100),
            ]
            &&& r@[0].player_start == point(part(w, 1, 4) + 100 * PIXEL, part(h, 3, 4) - 75 * PIXEL)
            &&& r@[0].goal == point(part(w, 3, 4) - 100 * PIXEL, part(h, 3, 4) - 75 * PIXEL)
            &&& r@[1].platforms@ == seq![
                rect(part(w, 1, 2), part(h, 3, 4), 1000, 50),
                rect(part(w, 65, 100), part(h, 1, 4), 400, 50),
                rect(part(w, 45, 100), part(h, 1, 5), 50, 800),
                rect(part(w, 55, 100), part(h, 1, 2), 50, 500),
            ]
            &&& r@[1].player_start == point(part(w, 1, 4) + 100 * PIXEL, part(h, 3, 4) - 75 * PIXEL)
            &&& r@[1].goal == point(part(w, 3, 4) - 100 * PIXEL, part(h, 1, 4) - 75 * PIXEL)
        }),
{
    let w: i64 = screen_width as i64 * PIXEL;
    let h: i64 = screen_height as i64 * PIXEL;
    let level_1 = Level {
        platforms: vec![
            PlatformRect {
                position: Vec2::new(part_of(w, 1, 2), part_of(h, 3, 4)),
                size: Vec2::new(1000 * PIXEL, 50 * PIXEL),
            },
            PlatformRect {
                position: Vec2::new(part_of(w, 1, 2), part_of(h, 1, 2) + 200 * PIXEL),
                size: Vec2::new(250 * PIXEL, 100 * PIXEL),
            },
        ],
        player_start: Vec2::new(part_of(w, 1, 4) + 100 * PIXEL, part_of(h, 3, 4) - 75 * PIXEL),
        goal: Vec2::new(part_of(w, 3, 4) - 100 * PIXEL, part_of(h, 3, 4) - 75 * PIXEL),
    };
    let level_2 = Level {
        platforms: vec![
            PlatformRect {
                position: Vec2::new(part_of(w, 1, 2), part_of(h, 3, 4)),
                size: Vec2::new(1000 * PIXEL, 50 * PIXEL),
            },
            PlatformRect {
                position: Vec2::new(part_of(w, 65, 100), part_of(h, 1, 4)),
                size: Vec2::new(400 * PIXEL, 50 * PIXEL),
            },
            PlatformRect {
                position: Vec2::new(part_of(w, 45, 100), part_of(h, 1, 5)),
                size: Vec2::new(50 * PIXEL, 800 * PIXEL),
            },
            PlatformRect {
                position: Vec2::new(part_of(w, 55, 100), part_of(h, 1, 2)),
                size: Vec2::new(50 * PIXEL, 500 * PIXEL),
            },
        ],
        player_start: Vec2::new(part_of(w, 1, 4) + 100 * PIXEL, part_of(h, 3, 4) - 75 * PIXEL),
        goal: Vec2::new(part_of(w, 3, 4) - 100 * PIXEL, part_of(h, 1, 4) - 75 * PIXEL),
    };
    let levels = vec![level_1, level_2];
    proof {
        assert(levels@[0].platforms@ =~= seq![
            rect(part(w as int, 1, 2), part(h as int, 3, 4), 1000, 50),
            rect(part(w as int, 1, 2), part(h as int, 1, 2) + 200 * PIXEL, 250, 100),
        ]);
        assert(levels@[1].platforms@ =~= seq![
            rect(part(w as int, 1, 2), part(h as int, 3, 4), 1000, 50),
            rect(part(w as int, 65, 100), part(h as int, 1, 4), 400, 50),
            rect(part(w as int, 45, 100), part(h as int, 1, 5), 50, 800),
            rect(part(w as int, 55, 100), part(h as int, 1, 2), 50, 500),
        ]);
    }
    levels
}

} // verus!
