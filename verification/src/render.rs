//! What is to be drawn for a note, a fret and a polygon. Nothing is drawn
//! here: the caller takes these answers to the screen.

use macroquad::math::Vec2;
use vstd::prelude::*;

use crate::song::{has_bit, Note};

verus! {

/// `macroquad::math::Vec2`, a point of the plane. Nothing is read of it
/// here and nothing is claimed of it.
#[verifier::external_type_specification]
#[verifier::external_body]
pub struct ExVec2(macroquad::math::Vec2);

/// The lane on which the gem of an open note is drawn.
pub const OPEN_LANE: usize = 6;

/// The picture of a gem.
#[derive(Debug, Clone, Copy, PartialEq, Eq, Structural)]
pub enum GemKind {
    Note,
    Hopo,
    Tap,
    WorTap,
    Open,
    OpenHopo,
}

/// One gem of a note.
#[derive(Debug, Clone, Copy, PartialEq, Eq, Structural)]
pub struct Gem {
    pub kind: GemKind,
    /// The lane, 0 to 4, or `OPEN_LANE` for the gem of an open note.
    pub lane: usize,
}

/// A layer of a fret of the strikeline.
#[derive(Debug, Clone, Copy, PartialEq, Eq, Structural)]
pub enum FretLayer {
    /// The fret held down flat.
    Pressed,
    Shell,
    Piston,
    /// The head of a fret that is not held.
    Fret,
    /// The head of a fret that is held.
    FretPressed,
    Ring,
}

/// The picture of the gem of an open note: that of a hammer-on where the
/// note is one or is a tap note.
pub open spec fn open_kind(frets: u8, is_hopo: bool) -> GemKind {
    if is_hopo || has_bit(frets, 6) {
        GemKind::OpenHopo
    } else {
        GemKind::Open
    }
}

/// The picture of the gems on the lanes: a tap note's before a
/// hammer-on's, a hammer-on's before a plain note's.
pub open spec fn lane_kind(frets: u8, is_hopo: bool, wor_tap: bool) -> GemKind {
    if has_bit(frets, 6) {
        if wor_tap {
            GemKind::WorTap
        } else {
            GemKind::Tap
        }
    } else if is_hopo {
        GemKind::Hopo
    } else {
        GemKind::Note
    }
}

/// The gems on the first `lanes` lanes, in the order of the lanes.
pub open spec fn lane_gems(frets: u8, is_hopo: bool, wor_tap: bool, lanes: nat) -> Seq<Gem>
    decreases lanes,
{
    if lanes == 0 {
        Seq::empty()
    } else {
        let before = lane_gems(frets, is_hopo, wor_tap, (lanes - 1) as nat);
        if has_bit(frets, (lanes - 1) as u8) {
            before.push(
                Gem { kind: lane_kind(frets, is_hopo, wor_tap), lane: (lanes - 1) as usize },
            )
        } else {
            before
        }
    }
}

/// The gems of a chord: first that of an open note, if it is one, then one
/// for each of the five lanes that it holds.
pub open spec fn gems_of(frets: u8, is_hopo: bool, wor_tap: bool) -> Seq<Gem> {
    let open = if has_bit(frets, 7) {
        seq![Gem { kind: open_kind(frets, is_hopo), lane: OPEN_LANE }]
    } else {
        Seq::empty()
    };
    open + lane_gems(frets, is_hopo, wor_tap, 5)
}

/// The gems to draw for a note. `is_hopo` says whether the note is a
/// hammer-on, `wor_tap` which picture tap notes are to have.
pub fn gems(note: &Note, is_hopo: bool, wor_tap: bool) -> (out: Vec<Gem>)
    ensures
        out@ == gems_of(note.frets, is_hopo, wor_tap),
{
    let mut out: Vec<Gem> = Vec::new();
    let tap = note.is_tap();
    if note.is_open() {
        let kind = if is_hopo || tap {
            GemKind::OpenHopo
        } else {
            GemKind::Open
        };
        out.push(Gem { kind, lane: OPEN_LANE });
    }
    let ghost open = out@;
    let kind = if tap {
        if wor_tap {
            GemKind::WorTap
        } else {
            GemKind::Tap
        }
    } else if is_hopo {
        GemKind::Hopo
    } else {
        GemKind::Note
    };
    let mut lane: u8 = 0;
    while lane < 5
        invariant
            lane <= 5,
            kind == lane_kind(note.frets, is_hopo, wor_tap),
            out@ == open + lane_gems(note.frets, is_hopo, wor_tap, lane as nat),
        decreases 5 - lane,
    {
        if note.lane(lane) {
            out.push(Gem { kind, lane: lane as usize });
        }
        lane += 1;
    }
    out
}

/// Which of the three sets of fret pictures a lane has: the outer lanes
/// share one, the lanes next to them another, the middle lane has its own.
pub fn fret_textures(fret: usize) -> (set: usize)
    ensures
        set == if fret == 0 || fret == 4 {
            0usize
        } else if fret == 1 || fret == 3 {
            1usize
        } else {
            2usize
        },
{
    if fret == 0 || fret == 4 {
        0
    } else if fret == 1 || fret == 3 {
        1
    } else {
        2
    }
}

/// Whether the pictures of a lane are drawn mirrored: those right of the
/// middle are.
pub fn fret_flipped(fret: usize) -> (flip: bool)
    ensures
        flip == (fret > 2),
{
    fret > 2
}

/// The layers of a fret, from the bottom up. A fret that is held and has
/// sunk all the way lies flat; any other shows its shell, its piston, its
/// head and its ring.
pub fn fret_layers(height: u32, pressed: bool) -> (layers: Vec<FretLayer>)
    ensures
        layers@ == if height == 0 && pressed {
            seq![FretLayer::Pressed]
        } else {
            seq![
                FretLayer::Shell,
                FretLayer::Piston,
                if pressed {
                    FretLayer::FretPressed
                } else {
                    FretLayer::Fret
                },
                FretLayer::Ring,
            ]
        },
{
    let mut layers: Vec<FretLayer> = Vec::new();
    if height == 0 && pressed {
        layers.push(FretLayer::Pressed);
    } else {
        let head = if pressed {
            FretLayer::FretPressed
        } else {
            FretLayer::Fret
        };
        layers.push(FretLayer::Shell);
        layers.push(FretLayer::Piston);
        layers.push(head);
        layers.push(FretLayer::Ring);
    }
    layers
}

/// Cuts a convex polygon into triangles that fan out from its first
/// corner. Each triangle names three corners by their places. A polygon
/// of fewer than three corners has none.
pub fn triangulate_polygon(vertices: &[Vec2]) -> (tris: Vec<[usize; 3]>)
    ensures
        tris@.len() == if vertices@.len() < 3 {
            0
        } else {
            vertices@.len() - 2
        },
        forall|k: int|
            0 <= k < tris@.len() ==> (#[trigger] tris@[k])@ == seq![
                0usize,
                (k + 1) as usize,
                (k + 2) as usize,
            ],
{
    let mut tris: Vec<[usize; 3]> = Vec::new();
    let n = vertices.len();
    if n < 3 {
        return tris;
    }
    let mut i: usize = 1;
    while i < n - 1
        invariant
            3 <= n,
            1 <= i <= n - 1,
            tris@.len() == i - 1,
            forall|k: int|
                0 <= k < tris@.len() ==> (#[trigger] tris@[k])@ == seq![
                    0usize,
                    (k + 1) as usize,
                    (k + 2) as usize,
                ],
        decreases n - i,
    {
        let tri: [usize; 3] = [0, i, i + 1];
        tris.push(tri);
        i += 1;
    }
    tris
}

} // verus!
